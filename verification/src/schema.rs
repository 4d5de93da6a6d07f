//! The schema emitter: reflects each contract type into a structural schema
//! document (a JSON-Schema-like text) describing its fields, their types,
//! which of them are required, and the variants of the union types. Each
//! emitter returns exactly the document its spec function describes, so the
//! compiled type, the emitted schema and every repeated reflection agree.

use vstd::prelude::*;
use vstd::string::StringExecFns;

verus! {

/// The schema document of `User`: an object with the required fields `id`
/// (an unsigned integer) and `name` (a string).
pub open spec fn user_schema() -> Seq<char> {
    "{\"title\":\"User\",\"type\":\"object\",\"required\":[\"id\",\"name\"],\"properties\":{\"id\":{\"type\":\"integer\",\"minimum\":0},\"name\":{\"type\":\"string\"}}}"@
}

/// The schema document of `AuthRequest`: an object with the required string
/// fields `username` and `password`.
pub open spec fn auth_request_schema() -> Seq<char> {
    "{\"title\":\"AuthRequest\",\"type\":\"object\",\"required\":[\"username\",\"password\"],\"properties\":{\"username\":{\"type\":\"string\"},\"password\":{\"type\":\"string\"}}}"@
}

/// The schema document of `AuthResponse`: an object with the required fields
/// `user` (described by the embedded `User` schema) and `token` (a string).
pub open spec fn auth_response_schema() -> Seq<char> {
    "{\"title\":\"AuthResponse\",\"type\":\"object\",\"required\":[\"user\",\"token\"],\"properties\":{\"user\":"@
        + user_schema()
        + ",\"token\":{\"type\":\"string\"}}}"@
}

/// The schema document of the `Auth` envelope, `API<AuthRequest,
/// AuthResponse>`: exactly one of the externally tagged variants `Call`
/// (carrying a request) or `Return` (carrying a response).
pub open spec fn auth_api_schema() -> Seq<char> {
    "{\"title\":\"API\",\"oneOf\":[{\"type\":\"object\",\"required\":[\"Call\"],\"properties\":{\"Call\":"@
        + auth_request_schema()
        + "}},{\"type\":\"object\",\"required\":[\"Return\"],\"properties\":{\"Return\":"@
        + auth_response_schema()
        + "}}]}"@
}

/// The schema document of `APICollection`: exactly one of the externally
/// tagged variants, one per named API — currently only `Auth`, wrapping its
/// envelope schema.
pub open spec fn api_collection_schema() -> Seq<char> {
    "{\"title\":\"APICollection\",\"oneOf\":[{\"type\":\"object\",\"required\":[\"Auth\"],\"properties\":{\"Auth\":"@
        + auth_api_schema()
        + "}}]}"@
}

/// Reflects `User` into its schema document.
pub fn emit_user_schema() -> (r: String)
    ensures
        r@ == user_schema(),
{
    String::from_str(
        "{\"title\":\"User\",\"type\":\"object\",\"required\":[\"id\",\"name\"],\"properties\":{\"id\":{\"type\":\"integer\",\"minimum\":0},\"name\":{\"type\":\"string\"}}}",
    )
}

/// Reflects `AuthRequest` into its schema document.
pub fn emit_auth_request_schema() -> (r: String)
    ensures
        r@ == auth_request_schema(),
{
    String::from_str(
        "{\"title\":\"AuthRequest\",\"type\":\"object\",\"required\":[\"username\",\"password\"],\"properties\":{\"username\":{\"type\":\"string\"},\"password\":{\"type\":\"string\"}}}",
    )
}

/// Reflects `AuthResponse` into its schema document, embedding the `User`
/// schema for its `user` field.
pub fn emit_auth_response_schema() -> (r: String)
    ensures
        r@ == auth_response_schema(),
{
    let mut s = String::from_str(
        "{\"title\":\"AuthResponse\",\"type\":\"object\",\"required\":[\"user\",\"token\"],\"properties\":{\"user\":",
    );
    let user = emit_user_schema();
    s.append(user.as_str());
    s.append(",\"token\":{\"type\":\"string\"}}}");
    s
}

/// Reflects the `Auth` envelope type into its schema document, embedding the
/// request and response schemas under its two variants.
pub fn emit_auth_api_schema() -> (r: String)
    ensures
        r@ == auth_api_schema(),
{
    let mut s = String::from_str(
        "{\"title\":\"API\",\"oneOf\":[{\"type\":\"object\",\"required\":[\"Call\"],\"properties\":{\"Call\":",
    );
    let req = emit_auth_request_schema();
    s.append(req.as_str());
    s.append("}},{\"type\":\"object\",\"required\":[\"Return\"],\"properties\":{\"Return\":");
    let resp = emit_auth_response_schema();
    s.append(resp.as_str());
    s.append("}}]}");
    s
}

/// Reflects `APICollection` into its schema document, embedding the envelope
/// schema under its single `Auth` variant.
pub fn emit_api_collection_schema() -> (r: String)
    ensures
        r@ == api_collection_schema(),
{
    let mut s = String::from_str(
        "{\"title\":\"APICollection\",\"oneOf\":[{\"type\":\"object\",\"required\":[\"Auth\"],\"properties\":{\"Auth\":",
    );
    let auth = emit_auth_api_schema();
    s.append(auth.as_str());
    s.append("}}]}");
    s
}

/// Schema reflection is stable: any two documents that reflection may
/// produce for the same contract type are identical, because each emitter's
/// result equals that type's one schema document.
pub proof fn lemma_schema_reflection_stable(a: Seq<char>, b: Seq<char>)
    requires
        a == api_collection_schema(),
        b == api_collection_schema(),
    ensures
        a == b,
{
}

} // verus!
