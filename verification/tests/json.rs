use api::{APICollection, AuthRequest, AuthResponse, User, API};

fn user(id: u64, name: &str) -> User {
    User {
        id,
        name: name.to_string(),
    }
}

fn auth_request(username: &str, password: &str) -> AuthRequest {
    AuthRequest {
        username: username.to_string(),
        password: password.to_string(),
    }
}

fn auth_response(id: u64, name: &str, token: &str) -> AuthResponse {
    AuthResponse {
        user: user(id, name),
        token: token.to_string(),
    }
}

#[test]
fn user_document_is_canonical() {
    let s = user(42, "alice").to_json();
    assert_eq!(s, "{\"id\":42,\"name\":\"alice\"}");
}

#[test]
fn user_round_trip() {
    let u = user(42, "alice");
    assert_eq!(User::from_json(&u.to_json()), Some(u));
}

#[test]
fn user_round_trip_with_escapes_and_max_id() {
    let u = user(u64::MAX, "a\"b\\c");
    let s = u.to_json();
    assert_eq!(s, "{\"id\":18446744073709551615,\"name\":\"a\\\"b\\\\c\"}");
    assert_eq!(User::from_json(&s), Some(u));
}

#[test]
fn user_round_trip_at_the_edges() {
    let u = user(0, "");
    let s = u.to_json();
    assert_eq!(s, "{\"id\":0,\"name\":\"\"}");
    assert_eq!(User::from_json(&s), Some(u));
}

#[test]
fn auth_request_round_trip() {
    let q = auth_request("u", "");
    let s = q.to_json();
    assert_eq!(s, "{\"username\":\"u\",\"password\":\"\"}");
    assert_eq!(AuthRequest::from_json(&s), Some(q));
}

#[test]
fn auth_response_round_trip_embeds_user() {
    let p = auth_response(1, "u", "token");
    let s = p.to_json();
    assert_eq!(
        s,
        "{\"user\":{\"id\":1,\"name\":\"u\"},\"token\":\"token\"}"
    );
    assert_eq!(AuthResponse::from_json(&s), Some(p));
}

#[test]
fn envelope_round_trip_in_both_states() {
    let call = API::<AuthRequest, AuthResponse>::Call(auth_request("u", "p"));
    let s = call.to_json();
    assert_eq!(
        s,
        "{\"Call\":{\"username\":\"u\",\"password\":\"p\"}}"
    );
    assert_eq!(API::<AuthRequest, AuthResponse>::from_json(&s), Some(call));

    let ret = API::<AuthRequest, AuthResponse>::Return(auth_response(1, "u", "t"));
    let s = ret.to_json();
    assert_eq!(
        s,
        "{\"Return\":{\"user\":{\"id\":1,\"name\":\"u\"},\"token\":\"t\"}}"
    );
    assert_eq!(API::<AuthRequest, AuthResponse>::from_json(&s), Some(ret));
}

#[test]
fn collection_round_trip() {
    let c = APICollection::Auth(API::Call(auth_request("u", "p")));
    let s = c.to_json();
    assert_eq!(
        s,
        "{\"Auth\":{\"Call\":{\"username\":\"u\",\"password\":\"p\"}}}"
    );
    assert_eq!(APICollection::from_json(&s), Some(c));
}

#[test]
fn malformed_documents_are_rejected() {
    assert_eq!(User::from_json(""), None);
    assert_eq!(User::from_json("{\"id\":1}"), None);
    assert_eq!(User::from_json("{\"id\":,\"name\":\"x\"}"), None);
    assert_eq!(User::from_json("{\"id\":1,\"name\":\"x\"}trailing"), None);
    assert_eq!(User::from_json("{\"id\":1,\"name\":\"open"), None);
    // one past u64::MAX
    assert_eq!(
        User::from_json("{\"id\":18446744073709551616,\"name\":\"x\"}"),
        None
    );
    assert_eq!(APICollection::from_json("{\"Auth\":{\"Answer\":{}}}"), None);
}

#[test]
fn documents_agree_with_an_ordinary_json_reader() {
    let s = user(7, "a\"b").to_json();
    let parsed: serde_json::Value = serde_json::from_str(&s).expect("document is valid JSON");
    let mut obj = serde_json::Map::new();
    obj.insert("id".to_string(), serde_json::Value::from(7u64));
    obj.insert("name".to_string(), serde_json::Value::from("a\"b"));
    assert_eq!(parsed, serde_json::Value::Object(obj));

    let s = APICollection::Auth(API::Call(auth_request("u", "p"))).to_json();
    let parsed: serde_json::Value = serde_json::from_str(&s).expect("document is valid JSON");
    assert_eq!(parsed["Auth"]["Call"]["username"], "u");
    assert_eq!(parsed["Auth"]["Call"]["password"], "p");
}
