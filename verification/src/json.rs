//! JSON documents, read and written by `serde_json`. Nothing in this file is
//! proved: each item states what the library takes on trust from that crate.

use vstd::prelude::*;

verus! {

/// `serde_json::Value`: a parsed JSON document. Opaque here; what it holds
/// is spoken of through [`json_model`].
#[verifier::external_type_specification]
#[verifier::external_body]
pub struct ExJsonValue(serde_json::Value);

/// `serde_json::Error`: why a text is no JSON document.
#[verifier::external_type_specification]
#[verifier::external_body]
pub struct ExJsonError(serde_json::Error);

/// A JSON document as a mathematical value. Of a number only this is kept:
/// the signed 64-bit integer that it is, if it is one.
pub enum JsonModel {
    Null,
    Bool(bool),
    Number(Option<i64>),
    Text(Seq<char>),
    Array(Seq<JsonModel>),
    Object(Map<Seq<char>, JsonModel>),
}

/// What a `serde_json::Value` holds.
pub uninterp spec fn json_model(value: serde_json::Value) -> JsonModel;

/// What `serde_json::from_str` makes of a text: the document, or nothing if
/// the text is not JSON.
pub uninterp spec fn json_document(text: Seq<char>) -> Option<JsonModel>;

/// The JSON string literal that `serde_json` writes for a text: in double
/// quotes and with its escapes.
pub uninterp spec fn json_quoted(text: Seq<char>) -> Seq<char>;

/// The member `key` of a document, if the document is an object that has
/// it.
pub open spec fn member(document: JsonModel, key: Seq<char>) -> Option<JsonModel> {
    match document {
        JsonModel::Object(members) => if members.contains_key(key) {
            Some(members[key])
        } else {
            None
        },
        _ => None,
    }
}

/// `serde_json::from_str::<Value>`: parses a text. The outcome depends on
/// the text alone; a text that is not JSON gives an error.
#[verifier::external_body]
pub(crate) fn parse_json(text: &str) -> (r: Result<serde_json::Value, serde_json::Error>)
    ensures
        match r {
            Ok(value) => json_document(text@) == Some(json_model(value)),
            Err(_) => json_document(text@) is None,
        },
{
    serde_json::from_str::<serde_json::Value>(text)
}

/// `Value::get` with a string index: the member of that name if the value
/// is an object that has it, else nothing.
#[verifier::external_body]
pub(crate) fn json_get<'a>(value: &'a serde_json::Value, key: &str) -> (r: Option<
    &'a serde_json::Value,
>)
    ensures
        match r {
            Some(found) => member(json_model(*value), key@) == Some(json_model(*found)),
            None => member(json_model(*value), key@) is None,
        },
{
    value.get(key)
}

/// `Value::as_bool`: the boolean if the value is one, else nothing.
#[verifier::external_body]
pub(crate) fn json_as_bool(value: &serde_json::Value) -> (r: Option<bool>)
    ensures
        r == match json_model(*value) {
            JsonModel::Bool(b) => Some(b),
            _ => None,
        },
{
    value.as_bool()
}

/// `Value::as_i64`: the number as a signed 64-bit integer if the value is
/// such a number, else nothing.
#[verifier::external_body]
pub(crate) fn json_as_i64(value: &serde_json::Value) -> (r: Option<i64>)
    ensures
        r == match json_model(*value) {
            JsonModel::Number(n) => n,
            _ => None,
        },
{
    value.as_i64()
}

/// `Value::as_str`: the text if the value is a string, else nothing.
#[verifier::external_body]
pub(crate) fn json_as_str<'a>(value: &'a serde_json::Value) -> (r: Option<&'a str>)
    ensures
        match r {
            Some(text) => json_model(*value) == JsonModel::Text(text@),
            None => !(json_model(*value) is Text),
        },
{
    value.as_str()
}

/// `Value::String` written with `to_string`: the JSON string literal of a
/// text. It depends on the text alone.
#[verifier::external_body]
pub(crate) fn json_quote(text: &str) -> (r: String)
    ensures
        r@ == json_quoted(text@),
{
    serde_json::Value::String(text.to_owned()).to_string()
}

} // verus!
