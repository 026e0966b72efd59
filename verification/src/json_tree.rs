//! JSON documents as plain values. `serde_json` reads and writes the text;
//! the trusted functions here only move its `Value` into a [`JsonValue`]
//! tree and back, one variant to one variant. What is done to a tree is
//! verified elsewhere, over its view [`JsonData`].
use vstd::prelude::*;

verus! {

#[verifier::external_type_specification]
#[verifier::external_body]
pub struct ExJsonValue(serde_json::Value);

/// A JSON value: numbers kept as their text, object members in order.
pub enum JsonValue {
    Null,
    Bool(bool),
    Number(String),
    Str(String),
    Array(Vec<JsonValue>),
    Object(Vec<(String, JsonValue)>),
}

/// The view of a [`JsonValue`].
pub enum JsonData {
    Null,
    Bool(bool),
    Number(Seq<char>),
    Str(Seq<char>),
    Array(Seq<JsonData>),
    Object(Seq<(Seq<char>, JsonData)>),
}

/// The view of a JSON value.
pub open spec fn json_view(v: JsonValue) -> JsonData
    decreases v,
{
    match v {
        JsonValue::Null => JsonData::Null,
        JsonValue::Bool(b) => JsonData::Bool(b),
        JsonValue::Number(n) => JsonData::Number(n@),
        JsonValue::Str(s) => JsonData::Str(s@),
        JsonValue::Array(items) => JsonData::Array(
            Seq::new(
                items@.len(),
                |i: int|
                    {
                        if 0 <= i < items@.len() {
                            json_view(items@[i])
                        } else {
                            JsonData::Null
                        }
                    },
            ),
        ),
        JsonValue::Object(members) => JsonData::Object(
            Seq::new(
                members@.len(),
                |i: int|
                    {
                        if 0 <= i < members@.len() {
                            (members@[i].0@, json_view(members@[i].1))
                        } else {
                            (Seq::empty(), JsonData::Null)
                        }
                    },
            ),
        ),
    }
}

/// The view of an optional JSON value.
pub open spec fn json_opt_view(v: Option<JsonValue>) -> Option<JsonData> {
    match v {
        Some(x) => Some(json_view(x)),
        None => None,
    }
}

/// What `serde_json::from_str::<serde_json::Value>` reads from a text, as a
/// tree (object members in the order of its map); none when the text is
/// not JSON.
pub uninterp spec fn json_document(text: Seq<char>) -> Option<JsonData>;

/// What `serde_json::to_string` writes for the `serde_json::Value` built
/// from a tree (object members inserted in order); none when it fails or a
/// number's text does not read as a `serde_json::Number`.
pub uninterp spec fn json_text(v: JsonData) -> Option<Seq<char>>;

/// `serde_json::Value` moved into a [`JsonValue`], one variant to one
/// variant; a number as its `to_string` text.
#[verifier::external_body]
fn value_tree(v: &serde_json::Value) -> JsonValue {
    match v {
        serde_json::Value::Null => JsonValue::Null,
        serde_json::Value::Bool(b) => JsonValue::Bool(*b),
        serde_json::Value::Number(n) => JsonValue::Number(n.to_string()),
        serde_json::Value::String(s) => JsonValue::Str(s.clone()),
        serde_json::Value::Array(a) => JsonValue::Array(a.iter().map(value_tree).collect()),
        serde_json::Value::Object(m) => JsonValue::Object(m.iter().map(|(k, x)| (k.clone(), value_tree(x))).collect()),
    }
}

/// A [`JsonValue`] moved into a `serde_json::Value`, one variant to one
/// variant; a number read with `Number::from_str`, none when it does not read.
#[verifier::external_body]
fn tree_value(t: &JsonValue) -> Option<serde_json::Value> {
    Some(match t {
        JsonValue::Null => serde_json::Value::Null,
        JsonValue::Bool(b) => serde_json::Value::Bool(*b),
        JsonValue::Number(n) => serde_json::Value::Number(n.parse().ok()?),
        JsonValue::Str(s) => serde_json::Value::String(s.clone()),
        JsonValue::Array(a) => serde_json::Value::Array(a.iter().map(tree_value).collect::<Option<Vec<_>>>()?),
        JsonValue::Object(m) => serde_json::Value::Object(m.iter().map(|(k, x)| Some((k.clone(), tree_value(x)?))).collect::<Option<_>>()?),
    })
}

/// Reads a JSON text with `serde_json::from_str`; the tree is named
/// [`json_document`].
#[verifier::external_body]
pub(crate) fn parse_json(text: &str) -> (r: Option<JsonValue>)
    ensures
        json_opt_view(r) == json_document(text@),
{
    serde_json::from_str::<serde_json::Value>(text).ok().map(|v| value_tree(&v))
}

/// Writes a tree with `serde_json::to_string`; the text is named
/// [`json_text`] of the tree's view.
#[verifier::external_body]
pub(crate) fn json_to_text(v: &JsonValue) -> (r: Option<String>)
    ensures
        crate::jobs::opt_view(r) == json_text(json_view(*v)),
{
    tree_value(v).and_then(|x| serde_json::to_string(&x).ok())
}

} // verus!
