//! JSON documents, built and printed by `serde_json`.
//!
//! A document is a `serde_json::Value`. What it holds is the tree that [`json_view`] names; the
//! functions below that touch `serde_json` say over that tree what each call does.

use crate::text::single_line;
use serde_json::Value;
use vstd::prelude::*;

verus! {

/// What a JSON document holds.
pub enum JsonView {
    Null,
    Bool(bool),
    Number(u64),
    /// A number that no `u64` holds, as it is printed.
    OtherNumber(Seq<char>),
    Text(Seq<char>),
    Array(Seq<JsonView>),
    Object(Map<Seq<char>, JsonView>),
}

/// `serde_json::Value`, a JSON document.
#[verifier::external_type_specification]
#[verifier::external_body]
pub struct ExValue(serde_json::Value);

/// The contents of a `serde_json::Value`: its variant, with the strings, numbers, elements and
/// fields that it holds.
pub uninterp spec fn json_view(value: serde_json::Value) -> JsonView;

/// The text that `serde_json` prints for a document with these contents.
pub uninterp spec fn json_text(contents: JsonView) -> Seq<char>;

/// `Value::Null`: the null document.
#[verifier::external_body]
pub(crate) fn null() -> (value: Value)
    ensures
        json_view(value) == JsonView::Null,
{
    Value::Null
}

/// `Value::from(bool)`: the document that holds this truth value.
#[verifier::external_body]
pub(crate) fn boolean(flag: bool) -> (value: Value)
    ensures
        json_view(value) == JsonView::Bool(flag),
{
    Value::from(flag)
}

/// `Value::from(u64)`: the document that holds this number.
#[verifier::external_body]
pub(crate) fn number(count: u64) -> (value: Value)
    ensures
        json_view(value) == JsonView::Number(count),
{
    Value::from(count)
}

/// `Value::from(&str)`: the document that holds this string.
#[verifier::external_body]
pub(crate) fn text(content: &str) -> (value: Value)
    ensures
        json_view(value) == JsonView::Text(content@),
{
    Value::from(content)
}

/// `Value::from(Vec<Value>)`: the array of these documents, in order.
#[verifier::external_body]
pub(crate) fn array(elements: Vec<Value>) -> (value: Value)
    ensures
        json_view(value) == JsonView::Array(elements@.map_values(|e: Value| json_view(e))),
{
    Value::from(elements)
}

/// `Value::from(serde_json::Map)` of an empty map: the object without fields.
#[verifier::external_body]
pub(crate) fn object() -> (value: Value)
    ensures
        json_view(value) == JsonView::Object(Map::empty()),
{
    Value::from(serde_json::Map::new())
}

/// Assignment through `Value`'s `IndexMut<&str>`: the object's field `key` becomes `field`, whether
/// it had that field before or not; its other fields stay. On a document that is no object the
/// index panics (null aside), so an object is asked for.
#[verifier::external_body]
pub(crate) fn set_field(object: &mut Value, key: &str, field: Value)
    requires
        json_view(*old(object)) is Object,
    ensures
        json_view(*final(object)) == JsonView::Object(
            json_view(*old(object))->Object_0.insert(key@, json_view(field)),
        ),
{
    object[key] = field;
}

/// `Value`'s `Display` through `to_string`: the compact text of the document. It depends on the
/// contents alone: without its `preserve_order` feature, which is off here, `serde_json` prints an
/// object's fields in the order of their keys, not in that in which they were set. Control characters inside strings are printed as escapes and the compact form
/// has no layout, so the text has no line feed and no carriage return.
#[verifier::external_body]
pub(crate) fn to_text(document: &Value) -> (printed: String)
    ensures
        printed@ == json_text(json_view(*document)),
        single_line(printed@),
{
    document.to_string()
}

} // verus!
