//! What the command-line client reads from server responses.
use vstd::prelude::*;
use crate::json::JsonValue;
use crate::text::owned;

verus! {

/// The entries of a listing response: the response itself when it is an
/// array, else the array under `key`.
pub open spec fn listed(response: JsonValue, key: Seq<char>) -> Option<Seq<JsonValue>> {
    match response {
        JsonValue::Array(a) => Some(a@),
        _ => match response.spec_get(key) {
            Some(JsonValue::Array(a)) => Some(a@),
            _ => None,
        },
    }
}

/// Reads the entries of a listing response, which may be a bare array or
/// an object wrapping it under `key`; `None` for any other shape.
pub fn listed_entries<'a>(response: &'a JsonValue, key: &str) -> (r: Option<&'a [JsonValue]>)
    ensures
        match listed(*response, key@) {
            Some(s) => r matches Some(v) && v@ == s,
            None => r is None,
        },
{
    match response {
        JsonValue::Array(a) => Some(a.as_slice()),
        _ => match response.get(key) {
            Some(JsonValue::Array(a)) => Some(a.as_slice()),
            _ => None,
        },
    }
}

/// The text under `key`, when it is a string.
pub open spec fn text_under(v: JsonValue, key: Seq<char>) -> Option<Seq<char>> {
    match v.spec_get(key) {
        Some(JsonValue::String(s)) => Some(s@),
        _ => None,
    }
}

/// The session token in a login response.
pub fn login_token(response: &JsonValue) -> (r: Option<String>)
    ensures
        match text_under(*response, "token"@) {
            Some(t) => r matches Some(s) && s@ == t,
            None => r is None,
        },
{
    match response.get("token") {
        Some(JsonValue::String(s)) => Some(s.clone()),
        _ => None,
    }
}

/// A user listing row: the `username` and `role` strings, each shown as
/// `<invalid>` when missing or not a string.
pub fn user_row(user: &JsonValue) -> (r: (String, String))
    ensures
        r.0@ == match text_under(*user, "username"@) {
            Some(t) => t,
            None => "<invalid>"@,
        },
        r.1@ == match text_under(*user, "role"@) {
            Some(t) => t,
            None => "<invalid>"@,
        },
{
    let name = match user.get("username") {
        Some(JsonValue::String(s)) => s.clone(),
        _ => owned("<invalid>"),
    };
    let role = match user.get("role") {
        Some(JsonValue::String(s)) => s.clone(),
        _ => owned("<invalid>"),
    };
    (name, role)
}

} // verus!
