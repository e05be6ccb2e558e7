//! JSON documents: the text of a source is parsed by `serde_json`, and what
//! it holds is read from a tree of the library's own.

use vstd::prelude::*;

verus! {

/// A JSON value. Of a number only its presence is kept: no snippet holds one.
#[derive(Debug)]
pub enum Json {
    Null,
    Bool(bool),
    Number,
    Text(String),
    List(Vec<Json>),
    /// The members of an object, each with its key.
    Object(Vec<(String, Json)>),
}

/// `serde_json::Value`, which the parser hands out; nothing is known of
/// what is in it.
#[verifier::external_type_specification]
#[verifier::external_body]
pub struct ParsedValue(serde_json::Value);

/// The document that the JSON text `text` writes; `None` where `text` is
/// no JSON.
pub uninterp spec fn json_document(text: Seq<char>) -> Option<Json>;

/// Turns a `serde_json::Value` into a [`Json`], variant by variant: a
/// string, the items of an array and the members of an object are moved
/// over as they are, the members in the order in which `serde_json`'s map
/// hands them out.
#[verifier::external_body]
fn json_of_value(value: serde_json::Value) -> Json {
    match value {
        serde_json::Value::Null => Json::Null,
        serde_json::Value::Bool(b) => Json::Bool(b),
        serde_json::Value::Number(_) => Json::Number,
        serde_json::Value::String(s) => Json::Text(s),
        serde_json::Value::Array(items) => Json::List(
            items.into_iter().map(json_of_value).collect(),
        ),
        serde_json::Value::Object(members) => Json::Object(
            members.into_iter().map(|(key, value)| (key, json_of_value(value))).collect(),
        ),
    }
}

/// Calls `serde_json::from_str` for a `serde_json::Value`. The contract
/// claims that the outcome depends on the text alone: the same text is
/// refused, or gives the same document, every time. It claims nothing of
/// what the document holds.
#[verifier::external_body]
pub(crate) fn parse_json(text: &str) -> (document: Option<Json>)
    ensures
        document == json_document(text@),
{
    match serde_json::from_str::<serde_json::Value>(text) {
        Ok(value) => Some(json_of_value(value)),
        Err(_) => None,
    }
}

} // verus!
