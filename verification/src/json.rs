//! The JSON work the attestation checks hand to `serde_json`.
//!
//! Each trusted function here either parses a document with `serde_json` and
//! reads one thing out of it, or builds a value with `serde_json` and writes it
//! as text. What `serde_json` answers is a function of its arguments alone; the
//! spec functions below name those answers.
use vstd::prelude::*;

use crate::order::views;

verus! {

/// `serde_json::from_str::<serde_json::Value>` accepts `text`.
pub uninterp spec fn json_accepts(text: Seq<char>) -> bool;

/// The message of the error `serde_json::from_str::<serde_json::Value>` gives on
/// `text` (`Error`'s `to_string`: what went wrong, and the line and column).
pub uninterp spec fn json_error_text(text: Seq<char>) -> Seq<char>;

/// The text `serde_json` writes (`Value::to_string`) for the member `key` of the
/// top-level object of the document `text`; `None` where there is no such member
/// (`Value::get(key)` is `None`).
pub uninterp spec fn json_member_text(text: Seq<char>, key: Seq<char>) -> Option<Seq<char>>;

/// The string found in the document `text` at `[outer][index][key]`, following
/// `Value::get` three times and then `Value::as_str`; `None` where a step finds
/// nothing or the value found is not a JSON string.
pub uninterp spec fn json_nested_str(
    text: Seq<char>,
    outer: Seq<char>,
    index: nat,
    key: Seq<char>,
) -> Option<Seq<char>>;

/// Parses `document` with `serde_json::from_str::<serde_json::Value>`; succeeds
/// exactly when `serde_json` accepts the text, and hands back its error's
/// message (`Error`'s `to_string`) if not.
#[verifier::external_body]
pub(crate) fn json_check(document: &str) -> (r: Result<(), String>)
    ensures
        r is Ok <==> json_accepts(document@),
        r matches Err(m) ==> m@ == json_error_text(document@),
{
    match serde_json::from_str::<serde_json::Value>(document) {
        Ok(_) => Ok(()),
        Err(e) => Err(e.to_string()),
    }
}

/// The member `key` of the top-level object of `document`, written back as JSON
/// text by `serde_json` (`Value::get`, then `Value::to_string`).
#[verifier::external_body]
pub(crate) fn json_member(document: &str, key: &str) -> (r: Option<String>)
    requires
        json_accepts(document@),
    ensures
        match r {
            Some(t) => json_member_text(document@, key@) == Some(t@),
            None => json_member_text(document@, key@) is None,
        },
{
    let value: serde_json::Value = serde_json::from_str(document).ok()?;
    let member = value.get(key)?;
    Some(member.to_string())
}

/// The string at `[outer][index][key]` in `document` (`Value::get` three times,
/// then `Value::as_str`), copied.
#[verifier::external_body]
pub(crate) fn json_nested_string(document: &str, outer: &str, index: usize, key: &str) -> (r: Option<
    String,
>)
    requires
        json_accepts(document@),
    ensures
        match r {
            Some(t) => json_nested_str(document@, outer@, index as nat, key@) == Some(t@),
            None => json_nested_str(document@, outer@, index as nat, key@) is None,
        },
{
    let value: serde_json::Value = serde_json::from_str(document).ok()?;
    let list = value.get(outer)?;
    let item = list.get(index)?;
    let field = item.get(key)?;
    let text = field.as_str()?;
    Some(text.to_string())
}

/// The text `serde_json` writes (`Value::to_string`) for an object of two
/// members: `text_key` holding the string `text`, and `list_key` holding the
/// array of the strings `list`.
pub uninterp spec fn json_object_text(
    text_key: Seq<char>,
    text: Seq<char>,
    list_key: Seq<char>,
    list: Seq<Seq<char>>,
) -> Seq<char>;

/// Builds with `serde_json` the object whose member `text_key` is the string
/// `text` and whose member `list_key` is the array of the strings `list`
/// (`Map::insert`, `Value::String`, `Value::Array`, `Value::Object`), and writes
/// it with `Value::to_string`.
#[verifier::external_body]
pub(crate) fn json_object(text_key: &str, text: &str, list_key: &str, list: &Vec<String>) -> (r:
    String)
    ensures
        r@ == json_object_text(text_key@, text@, list_key@, views(list@)),
{
    let mut object = serde_json::Map::new();
    object.insert(text_key.to_string(), serde_json::Value::String(text.to_string()));
    let items: Vec<serde_json::Value> = list.iter().map(|s| serde_json::Value::String(s.clone())).collect();
    object.insert(list_key.to_string(), serde_json::Value::Array(items));
    serde_json::Value::Object(object).to_string()
}

} // verus!
