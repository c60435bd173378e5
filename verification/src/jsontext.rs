//! JSON documents held as text, read through `serde_json`.

use vstd::prelude::*;

verus! {

/// The string under a key of the JSON object that the text holds, where it
/// holds one with a string there.
pub uninterp spec fn json_string_field(text: Seq<char>, key: Seq<char>) -> Option<Seq<char>>;

/// The compact text that `serde_json::to_string` writes for the JSON value
/// that the text holds, where the text holds one.
pub uninterp spec fn json_compact(text: Seq<char>) -> Option<Seq<char>>;

/// The plain view of an optional string.
pub open spec fn opt_text(o: Option<String>) -> Option<Seq<char>> {
    match o {
        Some(s) => Some(s@),
        None => None,
    }
}

/// `serde_json::from_str::<Value>`, then `get(key)` and `as_str`.
#[verifier::external_body]
pub(crate) fn json_str_field(text: &str, key: &str) -> (r: Option<String>)
    ensures
        opt_text(r) == json_string_field(text@, key@),
{
    match serde_json::from_str::<serde_json::Value>(text) {
        Ok(v) => match v.get(key) {
            Some(t) => match t.as_str() {
                Some(s) => Some(s.to_string()),
                None => None,
            },
            None => None,
        },
        Err(_) => None,
    }
}

/// `serde_json::from_str::<Value>`, then `serde_json::to_string`.
#[verifier::external_body]
pub(crate) fn json_to_compact(text: &str) -> (r: Option<String>)
    ensures
        opt_text(r) == json_compact(text@),
{
    match serde_json::from_str::<serde_json::Value>(text) {
        Ok(v) => serde_json::to_string(&v).ok(),
        Err(_) => None,
    }
}

} // verus!
