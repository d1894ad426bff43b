//! Decisions of the HTTP client that do not depend on the network: which
//! statuses count as success, and how a failed response is turned into a
//! typed error.

use vstd::prelude::*;

use crate::error::PlankaError;

verus! {

/// A 2xx status.
pub open spec fn spec_is_success(status: u16) -> bool {
    200 <= status <= 299
}

/// Whether a status is a success (2xx).
pub fn is_success(status: u16) -> (r: bool)
    ensures
        r == spec_is_success(status),
{
    200 <= status && status <= 299
}

/// What `reqwest::StatusCode::canonical_reason` returns for a status code:
/// the registered reason phrase, `None` for unregistered codes and for codes
/// outside 100..=999.
pub uninterp spec fn spec_canonical_reason(status: u16) -> Option<Seq<char>>;

/// Calls `reqwest::StatusCode::from_u16` and `canonical_reason`.
#[verifier::external_body]
fn canonical_reason(status: u16) -> (r: Option<String>)
    ensures
        r.deep_view() == spec_canonical_reason(status),
{
    reqwest::StatusCode::from_u16(status).ok().and_then(|s| s.canonical_reason()).map(|s| s.to_string())
}

/// What parsing a text as JSON with `serde_json` and reading the string
/// member `key` of the top-level object gives: `None` when the text is not
/// JSON, is not an object, or has no string member `key`.
pub uninterp spec fn spec_json_string_member(text: Seq<char>, key: Seq<char>) -> Option<Seq<char>>;

/// Calls `serde_json::from_str::<serde_json::Value>` and reads the string
/// member `key` of the result (`Value::get`, then `Value::as_str`).
#[verifier::external_body]
fn json_string_member(text: &str, key: &str) -> (r: Option<String>)
    ensures
        r.deep_view() == spec_json_string_member(text@, key@),
{
    serde_json::from_str::<serde_json::Value>(text).ok().and_then(
        |v| v.get(key).and_then(|m| m.as_str()).map(String::from),
    )
}

/// The JSON member that carries the server's error text.
pub open spec fn spec_error_member() -> Seq<char> {
    "message"@
}

/// The message reported for a failed response: the status's reason phrase
/// (or "Unknown error") for an empty body, else the body's JSON `message`
/// member, else the body itself.
pub open spec fn spec_error_message(status: u16, body: Seq<char>) -> Seq<char> {
    if body.len() == 0 {
        match spec_canonical_reason(status) {
            Some(reason) => reason,
            None => "Unknown error"@,
        }
    } else {
        match spec_json_string_member(body, spec_error_member()) {
            Some(m) => m,
            None => body,
        }
    }
}

/// Maps a failed HTTP response onto a typed error: 401 is an authentication
/// failure, 404 a remote not-found carrying method and path, anything else
/// an API error carrying the status.
pub fn map_error(method: &str, path: &str, status: u16, body: &str) -> (r: PlankaError)
    ensures
        status == 401 ==> (r matches PlankaError::AuthenticationFailed { message } && message@
            == spec_error_message(status, body@)),
        status == 404 ==> (r matches PlankaError::Remote404 { method: m, path: p, server_message } && m@
            == method@ && p@ == path@ && server_message@ == spec_error_message(status, body@)),
        status != 401 && status != 404 ==> (r matches PlankaError::ApiError { status: s, message } && s
            == status && message@ == spec_error_message(status, body@)),
{
    let message = if body.is_empty() {
        match canonical_reason(status) {
            Some(reason) => reason,
            None => "Unknown error".to_owned(),
        }
    } else {
        match json_string_member(body, "message") {
            Some(m) => m,
            None => body.to_owned(),
        }
    };
    if status == 401 {
        PlankaError::AuthenticationFailed { message }
    } else if status == 404 {
        PlankaError::Remote404 { method: method.to_owned(), path: path.to_owned(), server_message: message }
    } else {
        PlankaError::ApiError { status, message }
    }
}

/// The error a login reports: an authentication failure from the server
/// becomes "Invalid email or password."; any other error is kept.
pub fn login_error(e: PlankaError) -> (r: PlankaError)
    ensures
        (e matches PlankaError::AuthenticationFailed { .. }) ==> (r matches PlankaError::AuthenticationFailed {
            message,
        } && message@ == "Invalid email or password."@),
        !(e matches PlankaError::AuthenticationFailed { .. }) ==> r == e,
{
    match e {
        PlankaError::AuthenticationFailed { .. } => PlankaError::AuthenticationFailed {
            message: "Invalid email or password.".to_owned(),
        },
        other => other,
    }
}

} // verus!
