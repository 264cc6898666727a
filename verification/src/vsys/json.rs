//! JSON values as `serde_json` reads them, as far as a package manifest is
//! asked about them: what an object holds under a key, and the text of a
//! string.

use vstd::prelude::*;

verus! {

/// A JSON value of `serde_json`.
#[verifier::external_type_specification]
#[verifier::external_body]
pub struct ExJsonValue(serde_json::Value);

/// What a JSON value holds: a text, an object with a value under each of
/// its keys, or something else (a number, a list, a truth value, nothing).
pub enum JsonView {
    Text(Seq<char>),
    Object(Map<Seq<char>, JsonView>),
    Other,
}

/// What the value holds.
pub uninterp spec fn json_view(value: serde_json::Value) -> JsonView;

/// The value that `serde_json` reads out of the bytes; none where they are
/// no JSON.
pub uninterp spec fn json_of(content: Seq<u8>) -> Option<JsonView>;

/// `serde_json::from_slice` for a `Value`: the value that the bytes
/// denote, or the text of the error where they are no JSON. Whether the bytes
/// parse and what the value holds depends on the bytes alone. Nothing is said
/// of the error's text.
#[verifier::external_body]
pub(crate) fn parse_json(content: &[u8]) -> (r: Result<serde_json::Value, String>)
    ensures
        match r {
            Ok(value) => json_of(content@) == Some(json_view(value)),
            Err(_) => json_of(content@) is None,
        },
{
    serde_json::from_slice(content).map_err(|e| e.to_string())
}

/// `Value::get` with a `str` index: what an object holds under the key;
/// nothing where it holds nothing under it, and nothing for a value that is
/// no object.
#[verifier::external_body]
pub(crate) fn json_get<'a>(value: &'a serde_json::Value, key: &str) -> (r: Option<
    &'a serde_json::Value,
>)
    ensures
        match member(json_view(*value), key@) {
            Some(held) => r matches Some(found) && json_view(*found) == held,
            None => r is None,
        },
{
    value.get(key)
}

/// `Value::as_str`: the text of a value that is a string; nothing for any
/// other value.
#[verifier::external_body]
pub(crate) fn json_text(value: &serde_json::Value) -> (r: Option<String>)
    ensures
        match json_view(*value) {
            JsonView::Text(text) => r matches Some(found) && found@ == text,
            _ => r is None,
        },
{
    value.as_str().map(|text| text.to_string())
}

/// What the value holds under `key`: something where it is an object with
/// that key, else nothing.
pub open spec fn member(json: JsonView, key: Seq<char>) -> Option<JsonView> {
    match json {
        JsonView::Object(fields) => if fields.dom().contains(key) {
            Some(fields[key])
        } else {
            None
        },
        _ => None,
    }
}

/// What is held under `key` by what was found before, if anything was.
pub open spec fn below(found: Option<JsonView>, key: Seq<char>) -> Option<JsonView> {
    match found {
        Some(json) => member(json, key),
        None => None,
    }
}

/// What is held under `key` by what was found before, if anything was.
pub(crate) fn get_below<'a>(found: Option<&'a serde_json::Value>, key: &str) -> (r: Option<
    &'a serde_json::Value,
>)
    ensures
        match below(found_view(found), key@) {
            Some(held) => r matches Some(value) && json_view(*value) == held,
            None => r is None,
        },
{
    match found {
        Some(value) => json_get(value, key),
        None => None,
    }
}

/// The model of what was found.
pub open spec fn found_view(found: Option<&serde_json::Value>) -> Option<JsonView> {
    match found {
        Some(value) => Some(json_view(*value)),
        None => None,
    }
}

} // verus!
