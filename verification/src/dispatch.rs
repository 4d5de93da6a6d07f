//! The envelope dispatcher and the API router: the one legal envelope
//! transition is `Call -> Return`; answering an answer is an error, and
//! routing never changes which named API a value belongs to.

use vstd::prelude::*;
use vstd::string::StringExecFns;

use crate::{API, APICollection, AuthRequest, AuthResponse, User};

verus! {

/// The dispatcher's error: either its own protocol-state error (the envelope
/// was already in `Return` state), or the handler's error, passed through
/// unchanged.
#[derive(Debug, Clone, PartialEq, Eq)]
pub enum ApiError<E> {
    WrongState,
    Handler(E),
}

/// What the example `login` handler promises: user id 1, the user named after
/// the request, and a fixed opaque token.
pub open spec fn is_login_response(req: AuthRequest, resp: AuthResponse) -> bool {
    &&& resp.user.id == 1
    &&& resp.user.name == req.username
    &&& resp.token@ == "token"@
}

/// The example authentication handler: accepts every credential and answers
/// with user id 1 under the requested name.
pub fn login(req: AuthRequest) -> (r: Result<AuthResponse, ()>)
    ensures
        r matches Ok(resp) && is_login_response(req, resp),
{
    Ok(AuthResponse {
        user: User { id: 1, name: req.username },
        token: String::from_str("token"),
    })
}

/// Lifts a plain `Request -> Result<Response, E>` handler over the envelope:
/// a `Call` envelope is answered by the handler and yields a `Return`
/// envelope; an envelope already in `Return` state is rejected with the
/// protocol-state error, and the handler is never consulted for it.
pub fn api_wrapper<Request, Response, E, F: Fn(Request) -> Result<Response, E>>(
    api: F,
    param: API<Request, Response>,
) -> (r: Result<API<Request, Response>, ApiError<E>>)
    requires
        param matches API::Call(req) ==> call_requires(api, (req,)),
    ensures
        (match param {
            API::Call(req) => match r {
                Ok(API::Return(resp)) => call_ensures(api, (req,), Ok(resp)),
                Ok(API::Call(_)) => false,
                Err(ApiError::Handler(e)) => call_ensures(api, (req,), Err(e)),
                Err(ApiError::WrongState) => false,
            },
            API::Return(_) => r == Err::<API<Request, Response>, ApiError<E>>(
                ApiError::WrongState,
            ),
        }),
{
    match param {
        API::Call(req) => match api(req) {
            Ok(resp) => Ok(API::Return(resp)),
            Err(e) => Err(ApiError::Handler(e)),
        },
        API::Return(_) => Err(ApiError::WrongState),
    }
}

/// Both sides carry the same union tag: routing may change an envelope's
/// state, never which named API it belongs to.
pub open spec fn same_tag(a: APICollection, b: APICollection) -> bool {
    match (a, b) {
        (APICollection::Auth(_), APICollection::Auth(_)) => true,
    }
}

/// Routes a value of the API union: dispatches the enclosed envelope to the
/// matching handler and re-wraps the result under the same tag. A `Call`
/// envelope always comes back answered (the login handler never fails); a
/// `Return` envelope yields the protocol-state error.
pub fn api_router(param: APICollection) -> (r: Result<APICollection, ApiError<()>>)
    ensures
        (match param {
            APICollection::Auth(env) => match env {
                API::Call(req) => r matches Ok(APICollection::Auth(API::Return(resp)))
                    && is_login_response(req, resp),
                API::Return(_) => r == Err::<APICollection, ApiError<()>>(ApiError::WrongState),
            },
        }),
        r matches Ok(out) ==> same_tag(param, out),
{
    match param {
        APICollection::Auth(env) => match api_wrapper(login, env) {
            Ok(out) => Ok(APICollection::Auth(out)),
            Err(e) => Err(e),
        },
    }
}

} // verus!
