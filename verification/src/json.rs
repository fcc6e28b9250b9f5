//! The few questions the library asks of JSON text. The answers come from
//! serde_json; each function here is trusted and only names its result, which
//! depends on the arguments alone.

use vstd::prelude::*;
use crate::text::text_of;

verus! {

/// The JSON string literal for `text`, quotes and escapes included.
pub uninterp spec fn json_quoted(text: Seq<char>) -> Seq<char>;

/// The string at position `index` of the JSON array `json`; `None` where
/// `json` is no JSON, no array, too short, or holds something else there.
pub uninterp spec fn json_item_text(json: Seq<char>, index: nat) -> Option<Seq<char>>;

/// The string member `key` of the value at position `index` of the JSON array
/// `json`; `None` where any step fails.
pub uninterp spec fn json_item_member_text(json: Seq<char>, index: nat, key: Seq<char>) -> Option<
    Seq<char>,
>;

/// The value at position `index` of the JSON array `json`, written out as
/// compact JSON; `None` where `json` is no JSON or has no such element.
pub uninterp spec fn json_item_json(json: Seq<char>, index: nat) -> Option<Seq<char>>;

/// The unsigned integer member `key` of the JSON value `json`; `None` where
/// `json` is no JSON, has no such member, or the member is no such number.
pub uninterp spec fn json_member_u64(json: Seq<char>, key: Seq<char>) -> Option<u64>;

/// Writes `text` as a JSON string literal. Trusted: builds a
/// `serde_json::Value::String` and writes it with its `Display`.
#[verifier::external_body]
pub(crate) fn quote(text: &str) -> (out: String)
    ensures
        out@ == json_quoted(text@),
{
    serde_json::Value::String(text.to_owned()).to_string()
}

/// Reads the string at `index` of a JSON array. Trusted: calls
/// `serde_json::from_str`, `Value::get` and `Value::as_str`.
#[verifier::external_body]
pub(crate) fn item_text(json: &str, index: usize) -> (out: Option<String>)
    ensures
        text_of(out) == json_item_text(json@, index as nat),
{
    let value = match serde_json::from_str::<serde_json::Value>(json) {
        Ok(v) => v,
        Err(_) => return None,
    };
    match value.get(index) {
        Some(item) => match item.as_str() {
            Some(s) => Some(s.to_owned()),
            None => None,
        },
        None => None,
    }
}

/// Reads the string member `key` of the element at `index` of a JSON array.
/// Trusted: calls `serde_json::from_str`, `Value::get` twice and
/// `Value::as_str`.
#[verifier::external_body]
pub(crate) fn item_member_text(json: &str, index: usize, key: &str) -> (out: Option<String>)
    ensures
        text_of(out) == json_item_member_text(json@, index as nat, key@),
{
    let value = match serde_json::from_str::<serde_json::Value>(json) {
        Ok(v) => v,
        Err(_) => return None,
    };
    let item = match value.get(index) {
        Some(item) => item,
        None => return None,
    };
    match item.get(key) {
        Some(member) => match member.as_str() {
            Some(s) => Some(s.to_owned()),
            None => None,
        },
        None => None,
    }
}

/// Writes out the element at `index` of a JSON array. Trusted: calls
/// `serde_json::from_str` and `Value::get`, and writes the element with its
/// `Display`.
#[verifier::external_body]
pub(crate) fn item_json(json: &str, index: usize) -> (out: Option<String>)
    ensures
        text_of(out) == json_item_json(json@, index as nat),
{
    let value = match serde_json::from_str::<serde_json::Value>(json) {
        Ok(v) => v,
        Err(_) => return None,
    };
    match value.get(index) {
        Some(item) => Some(item.to_string()),
        None => None,
    }
}

/// Reads the unsigned integer member `key` of a JSON value. Trusted: calls
/// `serde_json::from_str`, `Value::get` and `Value::as_u64`.
#[verifier::external_body]
pub(crate) fn member_u64(json: &str, key: &str) -> (out: Option<u64>)
    ensures
        out == json_member_u64(json@, key@),
{
    let value = match serde_json::from_str::<serde_json::Value>(json) {
        Ok(v) => v,
        Err(_) => return None,
    };
    match value.get(key) {
        Some(member) => member.as_u64(),
        None => None,
    }
}

} // verus!
