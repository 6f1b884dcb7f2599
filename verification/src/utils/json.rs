//! JSON values as serde_json holds them, and the few operations on them that
//! the server needs. Nothing here is proved: each contract says what the
//! operation of serde_json does to what a value holds.

use serde_json::Value;
use vstd::prelude::*;

verus! {

/// serde_json's `Value`: any JSON value. What it holds is known through
/// `array_items`, `string_text` and `object_of` alone.
#[verifier::external_type_specification]
#[verifier::external_body]
pub struct ExValue(serde_json::Value);

/// serde_json's `Map`: a JSON object. What it holds is known through
/// `object_entries` alone.
#[verifier::external_type_specification]
#[verifier::external_body]
#[verifier::reject_recursive_types(K)]
#[verifier::reject_recursive_types(V)]
pub struct ExMap<K, V>(serde_json::Map<K, V>);

/// A JSON object.
pub type JsonObject = serde_json::Map<String, Value>;

/// What a JSON object holds: its values by their keys.
pub uninterp spec fn object_entries(object: JsonObject) -> Map<Seq<char>, Value>;

/// The items of a value that is an array, in their order.
pub uninterp spec fn array_items(value: Value) -> Option<Seq<Value>>;

/// The text of a value that is a string.
pub uninterp spec fn string_text(value: Value) -> Option<Seq<char>>;

/// What a value that is an object holds.
pub uninterp spec fn object_of(value: Value) -> Option<Map<Seq<char>, Value>>;

/// What an object without entries holds.
pub open spec fn no_entries() -> Map<Seq<char>, Value> {
    Map::empty()
}

/// `Map::new`: an object that holds nothing.
#[verifier::external_body]
pub(crate) fn new_object() -> (object: JsonObject)
    ensures
        object_entries(object) == no_entries(),
{
    serde_json::Map::new()
}

/// `Map::insert`: the object holds `value` under `key`, in place of what it
/// held there, and everything else as before.
#[verifier::external_body]
pub(crate) fn insert_entry(object: &mut JsonObject, key: String, value: Value)
    ensures
        object_entries(*final(object)) == object_entries(*old(object)).insert(key@, value),
{
    object.insert(key, value);
}

/// `Map::remove`: the object holds nothing under `key` any more, and
/// everything else as before; what it held under `key` is handed out.
#[verifier::external_body]
pub(crate) fn remove_entry(object: &mut JsonObject, key: &str) -> (value:
    Option<Value>)
    ensures
        object_entries(*final(object)) == object_entries(*old(object)).remove(key@),
        value == (if object_entries(*old(object)).dom().contains(key@) {
            Some(object_entries(*old(object))[key@])
        } else {
            None
        }),
{
    object.remove(key)
}

/// Tells the variant `Value::Array` from the others: the items of an array,
/// in their order, or the value as it came.
#[verifier::external_body]
pub(crate) fn into_array(value: Value) -> (r: Result<Vec<Value>, Value>)
    ensures
        match r {
            Ok(items) => array_items(value) == Some(items@),
            Err(other) => other == value && array_items(value) is None,
        },
{
    match value {
        Value::Array(items) => Ok(items),
        other => Err(other),
    }
}

/// `Value::Array`: the array of the items, in their order.
#[verifier::external_body]
pub(crate) fn array_value(items: Vec<Value>) -> (value: Value)
    ensures
        array_items(value) == Some(items@),
{
    Value::Array(items)
}

/// `Value::String`: the string with the text.
#[verifier::external_body]
pub(crate) fn string_value(text: String) -> (value: Value)
    ensures
        string_text(value) == Some(text@),
{
    Value::String(text)
}

/// `Value::Object`: the value that is the object.
#[verifier::external_body]
pub(crate) fn object_value(object: JsonObject) -> (value: Value)
    ensures
        object_of(value) == Some(object_entries(object)),
{
    Value::Object(object)
}

} // verus!
