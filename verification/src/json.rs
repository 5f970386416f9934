//! Reading JSON text through `serde_json`.
//!
//! A JSON document stays text inside the library; each query parses it with
//! `serde_json::from_str` into a `serde_json::Value` and reads one place of it, named by
//! a JSON pointer (RFC 6901, `Value::pointer`: `""` is the whole document, `"/a/0"` is
//! element 0 of member `a`). What the parser and the pointer lookup find is named below
//! and not restated: the library's contracts are written over these names.
use vstd::prelude::*;
use crate::text::{opt_view, views};

verus! {

/// The string at `pointer` in the JSON document `text`, if the text parses and a string
/// stands there.
pub uninterp spec fn json_str_at(text: Seq<char>, pointer: Seq<char>) -> Option<Seq<char>>;

/// The compact JSON text (`Value`'s `Display`) of whatever stands at `pointer` in the
/// document `text`, if it parses and something stands there.
pub uninterp spec fn json_text_at(text: Seq<char>, pointer: Seq<char>) -> Option<Seq<char>>;

/// The elements, each as compact JSON text, of the array at `pointer` in `text`, if the
/// text parses and an array stands there.
pub uninterp spec fn json_items_at(text: Seq<char>, pointer: Seq<char>) -> Option<
    Seq<Seq<char>>,
>;

/// The unsigned integer at `pointer` in `text` (`Value::as_u64`).
pub uninterp spec fn json_u64_at(text: Seq<char>, pointer: Seq<char>) -> Option<u64>;

/// The boolean at `pointer` in `text` (`Value::as_bool`).
pub uninterp spec fn json_bool_at(text: Seq<char>, pointer: Seq<char>) -> Option<bool>;

/// The message of the error `serde_json::from_str::<Value>` reports for `text`, or
/// `None` when `text` is a JSON document.
pub uninterp spec fn json_error(text: Seq<char>) -> Option<Seq<char>>;

/// `serde_json::from_str::<Value>`, then `Value::pointer` and `Value::as_str`.
/// Claims only that the result is the string named by `json_str_at` for these arguments.
#[verifier::external_body]
pub(crate) fn str_at(text: &str, pointer: &str) -> (r: Option<String>)
    ensures
        opt_view(r) == json_str_at(text@, pointer@),
{
    let value: serde_json::Value = serde_json::from_str(text).ok()?;
    value.pointer(pointer).and_then(serde_json::Value::as_str).map(str::to_owned)
}

/// `serde_json::from_str::<Value>`, then `Value::pointer` and `Value::to_string`.
/// Claims only that the result is the text named by `json_text_at` for these arguments.
#[verifier::external_body]
pub(crate) fn text_at(text: &str, pointer: &str) -> (r: Option<String>)
    ensures
        opt_view(r) == json_text_at(text@, pointer@),
{
    let value: serde_json::Value = serde_json::from_str(text).ok()?;
    value.pointer(pointer).map(serde_json::Value::to_string)
}

/// `serde_json::from_str::<Value>`, then `Value::pointer`, `Value::as_array`, and
/// `Value::to_string` of each element. Claims only that the result is named by
/// `json_items_at` for these arguments.
#[verifier::external_body]
pub(crate) fn items_at(text: &str, pointer: &str) -> (r: Option<Vec<String>>)
    ensures
        match r {
            Some(v) => json_items_at(text@, pointer@) == Some(views(v@)),
            None => json_items_at(text@, pointer@) is None,
        },
{
    let value: serde_json::Value = serde_json::from_str(text).ok()?;
    let items = value.pointer(pointer).and_then(serde_json::Value::as_array)?;
    Some(items.iter().map(serde_json::Value::to_string).collect())
}

/// `serde_json::from_str::<Value>`, then `Value::pointer` and `Value::as_u64`.
/// Claims only that the result is named by `json_u64_at` for these arguments.
#[verifier::external_body]
pub(crate) fn u64_at(text: &str, pointer: &str) -> (r: Option<u64>)
    ensures
        r == json_u64_at(text@, pointer@),
{
    let value: serde_json::Value = serde_json::from_str(text).ok()?;
    value.pointer(pointer).and_then(serde_json::Value::as_u64)
}

/// `serde_json::from_str::<Value>`, then `Value::pointer` and `Value::as_bool`.
/// Claims only that the result is named by `json_bool_at` for these arguments.
#[verifier::external_body]
pub(crate) fn bool_at(text: &str, pointer: &str) -> (r: Option<bool>)
    ensures
        r == json_bool_at(text@, pointer@),
{
    let value: serde_json::Value = serde_json::from_str(text).ok()?;
    value.pointer(pointer).and_then(serde_json::Value::as_bool)
}

/// `serde_json::from_str::<Value>`; on failure, the error's `Display` text.
/// Claims only that the result is named by `json_error` for `text`.
#[verifier::external_body]
pub(crate) fn parse_error(text: &str) -> (r: Option<String>)
    ensures
        opt_view(r) == json_error(text@),
{
    match serde_json::from_str::<serde_json::Value>(text) {
        Ok(_) => None,
        Err(e) => Some(e.to_string()),
    }
}

} // verus!
