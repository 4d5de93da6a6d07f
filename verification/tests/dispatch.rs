use api::dispatch::{api_router, api_wrapper, login, ApiError};
use api::{APICollection, AuthRequest, AuthResponse, User, API};

fn auth_request(username: &str, password: &str) -> AuthRequest {
    AuthRequest {
        username: username.to_string(),
        password: password.to_string(),
    }
}

fn auth_response(id: u64, name: &str, token: &str) -> AuthResponse {
    AuthResponse {
        user: User {
            id,
            name: name.to_string(),
        },
        token: token.to_string(),
    }
}

#[test]
fn login_accepts_any_credential() {
    let r = login(auth_request("alice", "secret"));
    assert_eq!(r, Ok(auth_response(1, "alice", "token")));
}

#[test]
fn end_to_end_auth_call() {
    let input = APICollection::Auth(API::Call(auth_request("u", "p")));
    let r = api_router(input);
    assert_eq!(
        r,
        Ok(APICollection::Auth(API::Return(auth_response(
            1, "u", "token"
        ))))
    );
}

#[test]
fn illegal_redispatch_is_wrong_state() {
    let input = APICollection::Auth(API::Return(auth_response(1, "u", "token")));
    let r = api_router(input);
    assert_eq!(r, Err(ApiError::WrongState));
}

#[test]
fn router_preserves_union_tag() {
    let input = APICollection::Auth(API::Call(auth_request("bob", "pw")));
    let r = api_router(input).unwrap();
    assert!(matches!(r, APICollection::Auth(_)));
}

#[test]
fn wrapper_answers_a_call() {
    let r = api_wrapper(login, API::Call(auth_request("carol", "pw")));
    assert_eq!(r, Ok(API::Return(auth_response(1, "carol", "token"))));
}

#[test]
fn wrapper_passes_handler_error_through() {
    let reject = |_req: AuthRequest| -> Result<AuthResponse, u32> { Err(42) };
    let r = api_wrapper(reject, API::Call(auth_request("dave", "pw")));
    assert_eq!(r, Err(ApiError::Handler(42)));
}

#[test]
fn wrapper_rejects_a_return_without_consulting_the_handler() {
    let never = |_req: AuthRequest| -> Result<AuthResponse, ()> {
        panic!("the handler must not run for a Return envelope")
    };
    let r = api_wrapper(never, API::Return(auth_response(1, "u", "token")));
    assert_eq!(r, Err(ApiError::WrongState));
}
