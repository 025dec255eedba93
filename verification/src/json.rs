//! JSON documents, read through `serde_json`.
//!
//! A parsed document is kept as an opaque `serde_json::Value`. What the
//! library reads of it is stated over `JsonModel`, its mathematical content.

use vstd::prelude::*;

verus! {

/// `serde_json::Value`, a parsed JSON document. Nothing of its inside is
/// seen here; `json_model` stands for what it holds.
#[verifier::external_type_specification]
#[verifier::external_body]
pub struct ExJsonValue(serde_json::Value);

/// The content of a JSON value, as far as this library reads it.
pub enum JsonModel {
    /// A string.
    Text(Seq<char>),
    /// A number, by the numeral that it has when it is read as a 64-bit float
    /// and printed in the default way.
    Number(Seq<char>),
    /// An object, by its members.
    Object(Map<Seq<char>, JsonModel>),
    /// Null, a boolean or an array.
    Other,
}

/// The content of a parsed document.
pub uninterp spec fn json_model(value: serde_json::Value) -> JsonModel;

/// The content of the document that a text holds, or `None` if the text is
/// not one JSON document.
pub uninterp spec fn parsed_json(text: Seq<char>) -> Option<JsonModel>;

/// The member of an object under `key`; `None` if there is none or if the
/// value is no object.
pub open spec fn member_of(doc: JsonModel, key: Seq<char>) -> Option<JsonModel> {
    match doc {
        JsonModel::Object(members) => if members.contains_key(key) {
            Some(members[key])
        } else {
            None
        },
        _ => None,
    }
}

/// `serde_json::from_str` at type `Value`: whether a text parses, and to
/// what, depends on the text alone.
#[verifier::external_body]
pub(crate) fn parse_json(text: &str) -> (r: Option<serde_json::Value>)
    ensures
        match r {
            Some(value) => parsed_json(text@) == Some(json_model(value)),
            None => parsed_json(text@) is None,
        },
{
    serde_json::from_str::<serde_json::Value>(text).ok()
}

/// `serde_json::Value::get` with a string index: the member under `key` if
/// the value is an object that has one, else `None`.
#[verifier::external_body]
pub(crate) fn json_member<'a>(value: &'a serde_json::Value, key: &str) -> (r: Option<
    &'a serde_json::Value,
>)
    ensures
        match member_of(json_model(*value), key@) {
            Some(member) => r matches Some(found) && json_model(*found) == member,
            None => r is None,
        },
{
    value.get(key)
}

/// `serde_json::Value::as_str`: the string if the value is one, else `None`.
#[verifier::external_body]
pub(crate) fn json_text<'a>(value: &'a serde_json::Value) -> (r: Option<&'a str>)
    ensures
        match json_model(*value) {
            JsonModel::Text(text) => r matches Some(found) && found@ == text,
            _ => r is None,
        },
{
    value.as_str()
}

/// `serde_json::Value::as_f64`, printed in the default way: the numeral if
/// the value is a number, else `None`.
#[verifier::external_body]
pub(crate) fn json_number(value: &serde_json::Value) -> (r: Option<String>)
    ensures
        match json_model(*value) {
            JsonModel::Number(numeral) => r matches Some(found) && found@ == numeral,
            _ => r is None,
        },
{
    match value.as_f64() {
        Some(number) => Some(number.to_string()),
        None => None,
    }
}

} // verus!
