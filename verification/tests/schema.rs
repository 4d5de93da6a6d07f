use api::schema::{
    emit_api_collection_schema, emit_auth_api_schema, emit_auth_request_schema,
    emit_auth_response_schema, emit_user_schema,
};

fn parse(doc: &str) -> serde_json::Value {
    serde_json::from_str(doc).expect("schema document is valid JSON")
}

fn required_fields(v: &serde_json::Value) -> Vec<String> {
    v["required"]
        .as_array()
        .expect("required is an array")
        .iter()
        .map(|f| f.as_str().expect("field name is a string").to_string())
        .collect()
}

fn property_names(v: &serde_json::Value) -> Vec<String> {
    v["properties"]
        .as_object()
        .expect("properties is an object")
        .keys()
        .cloned()
        .collect()
}

#[test]
fn reflection_is_deterministic() {
    assert_eq!(emit_user_schema(), emit_user_schema());
    assert_eq!(emit_auth_request_schema(), emit_auth_request_schema());
    assert_eq!(emit_auth_response_schema(), emit_auth_response_schema());
    assert_eq!(emit_auth_api_schema(), emit_auth_api_schema());
    assert_eq!(emit_api_collection_schema(), emit_api_collection_schema());
}

#[test]
fn user_schema_requires_exactly_its_fields() {
    let v = parse(&emit_user_schema());
    assert_eq!(v["title"].as_str(), Some("User"));
    assert_eq!(required_fields(&v), vec!["id", "name"]);
    assert_eq!(property_names(&v), vec!["id", "name"]);
    assert_eq!(v["properties"]["id"]["type"].as_str(), Some("integer"));
    assert_eq!(v["properties"]["name"]["type"].as_str(), Some("string"));
}

#[test]
fn auth_request_schema_requires_exactly_its_fields() {
    let v = parse(&emit_auth_request_schema());
    assert_eq!(v["title"].as_str(), Some("AuthRequest"));
    assert_eq!(required_fields(&v), vec!["username", "password"]);
    assert_eq!(property_names(&v), vec!["password", "username"]);
}

#[test]
fn auth_response_schema_requires_exactly_its_fields_and_embeds_user() {
    let v = parse(&emit_auth_response_schema());
    assert_eq!(v["title"].as_str(), Some("AuthResponse"));
    assert_eq!(required_fields(&v), vec!["user", "token"]);
    assert_eq!(property_names(&v), vec!["token", "user"]);
    let user = parse(&emit_user_schema());
    assert_eq!(v["properties"]["user"], user);
}

#[test]
fn envelope_schema_has_exactly_the_two_states() {
    let v = parse(&emit_auth_api_schema());
    let variants = v["oneOf"].as_array().expect("oneOf is an array");
    assert_eq!(variants.len(), 2);
    assert_eq!(required_fields(&variants[0]), vec!["Call"]);
    assert_eq!(
        variants[0]["properties"]["Call"],
        parse(&emit_auth_request_schema())
    );
    assert_eq!(required_fields(&variants[1]), vec!["Return"]);
    assert_eq!(
        variants[1]["properties"]["Return"],
        parse(&emit_auth_response_schema())
    );
}

#[test]
fn collection_schema_has_exactly_the_named_apis() {
    let v = parse(&emit_api_collection_schema());
    let variants = v["oneOf"].as_array().expect("oneOf is an array");
    assert_eq!(variants.len(), 1);
    assert_eq!(required_fields(&variants[0]), vec!["Auth"]);
    assert_eq!(
        variants[0]["properties"]["Auth"],
        parse(&emit_auth_api_schema())
    );
}
