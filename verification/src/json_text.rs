//! Reading and writing JSON text, by the JSON library.

use vstd::prelude::*;
use crate::json::{Json, JsonValue};

verus! {

/// `serde_json::Value`, the document tree of the JSON library.
#[verifier::external_type_specification]
#[verifier::external_body]
pub struct ExValue(serde_json::Value);

/// `serde_json::Error`, what the JSON library reports of a text it refuses.
#[verifier::external_type_specification]
#[verifier::external_body]
pub struct ExJsonError(serde_json::Error);

/// The value held by a document tree of the JSON library.
pub uninterp spec fn value_model(v: serde_json::Value) -> JsonValue;

/// What the JSON library reads from a text: the value, or nothing where the
/// text is no JSON document it accepts.
pub uninterp spec fn parsed_json(text: Seq<char>) -> Option<JsonValue>;

/// What the JSON library writes for a value: the compact text, or nothing
/// where it writes none.
pub uninterp spec fn printed_json(value: JsonValue) -> Option<Seq<char>>;

/// `serde_json::from_str`, read as a `serde_json::Value`: the document tree
/// of the text, or the library's error where it accepts no such text.
#[verifier::external_body]
pub(crate) fn parse_value(text: &str) -> (r: Result<serde_json::Value, serde_json::Error>)
    ensures
        r matches Ok(v) ==> parsed_json(text@) == Some(value_model(v)),
        r is Err ==> parsed_json(text@) is None,
{
    serde_json::from_str::<serde_json::Value>(text)
}

/// `serde_json::to_string`, on a `serde_json::Value`: the compact text of
/// the tree's value, or the library's error. Which of the two comes back,
/// and which text, depends on the value alone: the library's map keeps the
/// members of an object sorted by key, so nothing of how the tree was built
/// shows. That a text comes back is not claimed.
#[verifier::external_body]
pub(crate) fn print_value(v: &serde_json::Value) -> (r: Result<String, serde_json::Error>)
    ensures
        r matches Ok(s) ==> printed_json(value_model(*v)) == Some(s@),
        r is Err ==> printed_json(value_model(*v)) is None,
{
    serde_json::to_string(v)
}

/// Copies a tree of the JSON library into a [`Json`], variant for variant,
/// the members of an object in the order `serde_json::Map::iter` gives them.
/// The copy denotes what the tree holds.
#[verifier::external_body]
pub(crate) fn json_from_value(v: &serde_json::Value) -> (j: Json)
    ensures
        j@ == value_model(*v),
{
    match v {
        serde_json::Value::Null => Json::Null,
        serde_json::Value::Bool(b) => Json::Bool(*b),
        serde_json::Value::Number(n) => Json::Number(n.clone()),
        serde_json::Value::String(s) => Json::Str(s.clone()),
        serde_json::Value::Array(a) => Json::Array(a.iter().map(json_from_value).collect()),
        serde_json::Value::Object(o) => Json::Object(
            o.iter().map(|(k, x)| (k.clone(), json_from_value(x))).collect(),
        ),
    }
}

/// Copies a [`Json`] into a tree of the JSON library, variant for variant,
/// the members of an object by `serde_json::Map::insert` in their order, so
/// that a later member replaces an earlier one under the same key. The tree
/// holds what the document denotes.
#[verifier::external_body]
pub(crate) fn json_to_value(j: &Json) -> (v: serde_json::Value)
    ensures
        value_model(v) == j@,
{
    match j {
        Json::Null => serde_json::Value::Null,
        Json::Bool(b) => serde_json::Value::Bool(*b),
        Json::Number(n) => serde_json::Value::Number(n.clone()),
        Json::Str(s) => serde_json::Value::String(s.clone()),
        Json::Array(a) => serde_json::Value::Array(a.iter().map(json_to_value).collect()),
        Json::Object(o) => serde_json::Value::Object(o.iter().fold(
            serde_json::Map::new(),
            |mut m, (k, x)| {
                m.insert(k.clone(), json_to_value(x));
                m
            },
        )),
    }
}

/// Reads a JSON document from `text`, if the text is one.
pub fn parse(text: &str) -> (r: Option<Json>)
    ensures
        r matches Some(j) ==> parsed_json(text@) == Some(j@),
        r is None <==> parsed_json(text@) is None,
{
    match parse_value(text) {
        Ok(v) => Some(json_from_value(&v)),
        Err(_) => None,
    }
}

/// Writes `j` as compact JSON text: what the JSON library writes for the
/// value of `j`, a text or nothing.
pub fn print(j: &Json) -> (r: Option<String>)
    ensures
        r matches Some(s) ==> printed_json(j@) == Some(s@),
        r is None <==> printed_json(j@) is None,
{
    let v = json_to_value(j);
    match print_value(&v) {
        Ok(s) => Some(s),
        Err(_) => None,
    }
}

} // verus!
