//! A small, statically typed contract layer for a request/response style API:
//! a generic envelope that carries either a call or a return value, a tagged
//! union multiplexing the named APIs over that envelope, a dispatcher that
//! enforces the one legal envelope transition, a canonical wire form with
//! proved round trips, and a schema emitter that reflects the contract types
//! into a structural schema document.

use vstd::prelude::*;

pub mod dispatch;
pub mod json;
pub mod schema;

verus! {

/// An identity record. Immutable value; no identity beyond its fields.
#[derive(Debug, Clone, PartialEq, Eq)]
pub struct User {
    pub id: u64,
    pub name: String,
}

/// A plaintext credential payload. The contract layer neither hashes nor
/// validates it.
#[derive(Debug, Clone, PartialEq, Eq)]
pub struct AuthRequest {
    pub username: String,
    pub password: String,
}

/// A successful authentication: the resolved user and an opaque token.
#[derive(Debug, Clone, PartialEq, Eq)]
pub struct AuthResponse {
    pub user: User,
    pub token: String,
}

/// The two-state envelope of one API: a value is either a pending call
/// carrying the request, or a finished call carrying the response — never
/// both at once.
#[derive(Debug, Clone, PartialEq, Eq)]
pub enum API<Request, Response> {
    Call(Request),
    Return(Response),
}

/// The closed tagged union of all named APIs, each wrapping its own envelope
/// instantiation. Adding an API means adding one variant here and one handler
/// arm in the router.
#[derive(Debug, Clone, PartialEq, Eq)]
pub enum APICollection {
    Auth(API<AuthRequest, AuthResponse>),
}

/// The mathematical view of `User`.
pub struct UserV {
    pub id: u64,
    pub name: Seq<char>,
}

/// The mathematical view of `AuthRequest`.
pub struct AuthRequestV {
    pub username: Seq<char>,
    pub password: Seq<char>,
}

/// The mathematical view of `AuthResponse`.
pub struct AuthResponseV {
    pub user: UserV,
    pub token: Seq<char>,
}

/// The mathematical view of an envelope: the views of its two payloads.
pub enum ApiV<A, B> {
    Call(A),
    Return(B),
}

/// The mathematical view of `APICollection`.
pub enum APICollectionV {
    Auth(ApiV<AuthRequestV, AuthResponseV>),
}

impl View for User {
    type V = UserV;

    open spec fn view(&self) -> UserV {
        UserV { id: self.id, name: self.name@ }
    }
}

impl View for AuthRequest {
    type V = AuthRequestV;

    open spec fn view(&self) -> AuthRequestV {
        AuthRequestV { username: self.username@, password: self.password@ }
    }
}

impl View for AuthResponse {
    type V = AuthResponseV;

    open spec fn view(&self) -> AuthResponseV {
        AuthResponseV { user: self.user@, token: self.token@ }
    }
}

impl<Request: View, Response: View> View for API<Request, Response> {
    type V = ApiV<Request::V, Response::V>;

    open spec fn view(&self) -> Self::V {
        match self {
            API::Call(req) => ApiV::Call(req@),
            API::Return(resp) => ApiV::Return(resp@),
        }
    }
}

impl View for APICollection {
    type V = APICollectionV;

    open spec fn view(&self) -> APICollectionV {
        match self {
            APICollection::Auth(env) => APICollectionV::Auth(env@),
        }
    }
}

} // verus!
