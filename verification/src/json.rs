//! The JSON operations the bridge relies on, behind trusted
//! declarations.
//!
//! The streaming decoder must look inside two payloads: the `content`
//! string of a token event, and the `ok`/`version` fields of the
//! health response. Parsing is done by serde_json; what it returns is
//! a function of the bytes alone, so each result is given a name that
//! the verified callers' contracts use exactly.

use vstd::prelude::*;

verus! {

/// The string field named `key` of the JSON object in `text`: `Some`
/// exactly when `text` parses to an object holding a string there.
pub uninterp spec fn json_str_field(text: Seq<u8>, key: Seq<char>) -> Option<Seq<char>>;

/// The boolean field named `key` of the JSON object in `text`.
pub uninterp spec fn json_bool_field(text: Seq<u8>, key: Seq<char>) -> Option<bool>;

/// Relies on serde_json::from_slice::<Value>, Value::get and
/// Value::as_str: the string field of a JSON text at a key, `None`
/// when the text does not parse, is not an object, lacks the key, or
/// holds a non-string there.
#[verifier::external_body]
pub fn str_field(text: &[u8], key: &str) -> (r: Option<String>)
    ensures
        r matches Some(s) ==> json_str_field(text@, key@) == Some(s@),
        r is None ==> json_str_field(text@, key@) is None,
{
    match serde_json::from_slice::<serde_json::Value>(text) {
        Ok(v) => v.get(key).and_then(|f| f.as_str()).map(|s| s.to_string()),
        Err(_) => None,
    }
}

/// Relies on serde_json::from_slice::<Value>, Value::get and
/// Value::as_bool: the boolean field of a JSON text at a key, `None`
/// when the text does not parse, is not an object, lacks the key, or
/// holds a non-boolean there.
#[verifier::external_body]
pub fn bool_field(text: &[u8], key: &str) -> (r: Option<bool>)
    ensures
        r == json_bool_field(text@, key@),
{
    match serde_json::from_slice::<serde_json::Value>(text) {
        Ok(v) => v.get(key).and_then(|f| f.as_bool()),
        Err(_) => None,
    }
}

/// The text of a `token` payload: its `content` string field, empty
/// when the payload does not parse as JSON, carries no such field,
/// or holds a non-string there.
pub open spec fn spec_token_text(payload: Seq<u8>) -> Seq<char> {
    match json_str_field(payload, "content"@) {
        Some(c) => c,
        None => Seq::empty(),
    }
}

/// Extracts the text a `token` payload carries.
pub fn token_text(payload: &[u8]) -> (r: String)
    ensures
        r@ == spec_token_text(payload@),
{
    match str_field(payload, "content") {
        Some(s) => s,
        None => String::new(),
    }
}

} // verus!
