//! JSON values, and JSON objects as maps from key to value.
//!
//! A value is carried, never looked into: its constructors and its text are
//! named, and what an object holds is named as a map.

use serde_json::Value;

use vstd::prelude::*;

verus! {

/// A JSON value.
#[verifier::external_type_specification]
#[verifier::external_body]
pub struct ExValue(serde_json::Value);

/// A JSON object.
#[verifier::external_type_specification]
#[verifier::external_body]
#[verifier::reject_recursive_types(K)]
#[verifier::reject_recursive_types(V)]
pub struct ExObject<K, V>(serde_json::Map<K, V>);

/// What an object holds: the value of each of its keys.
pub uninterp spec fn entries(object: serde_json::Map<String, Value>) -> Map<Seq<char>, Value>;

/// The JSON string of `text`.
pub uninterp spec fn string_value(text: Seq<char>) -> Value;

/// The JSON boolean `flag`.
pub uninterp spec fn bool_value(flag: bool) -> Value;

/// The JSON array of `items`.
pub uninterp spec fn array_value(items: Seq<Value>) -> Value;

/// The JSON object that holds `fields`.
pub uninterp spec fn object_value(fields: Map<Seq<char>, Value>) -> Value;

/// The compact text of `value`, or what is said where it has none.
pub uninterp spec fn compact_text(value: Value) -> Result<Seq<char>, Seq<char>>;

/// `Value::from(&str)`: the JSON string of the text.
#[verifier::external_body]
pub(crate) fn string(text: &str) -> (value: Value)
    ensures
        value == string_value(text@),
{
    Value::from(text)
}

/// `Value::from(bool)`: the JSON boolean.
#[verifier::external_body]
pub(crate) fn boolean(flag: bool) -> (value: Value)
    ensures
        value == bool_value(flag),
{
    Value::from(flag)
}

/// `Value::Array`: the JSON array of the items, in their order.
#[verifier::external_body]
pub(crate) fn array(items: Vec<Value>) -> (value: Value)
    ensures
        value == array_value(items@),
{
    Value::Array(items)
}

/// `Value::from(Map)`: the JSON object with the map's entries. Without the
/// `preserve_order` feature an object is sorted by key, so the entries alone
/// make it.
#[verifier::external_body]
pub(crate) fn object(fields: serde_json::Map<String, Value>) -> (value: Value)
    ensures
        value == object_value(entries(fields)),
{
    Value::from(fields)
}

/// `serde_json::to_string` of a value: its compact text, or the error's text.
#[verifier::external_body]
pub(crate) fn to_text(value: &Value) -> (r: Result<String, String>)
    ensures
        (match r {
            Ok(text) => compact_text(*value) == Ok::<Seq<char>, Seq<char>>(text@),
            Err(e) => compact_text(*value) == Err::<Seq<char>, Seq<char>>(e@),
        }),
{
    serde_json::to_string(value).map_err(|e| e.to_string())
}

/// `Map::new`: an object with no entries.
#[verifier::external_body]
pub(crate) fn empty_object() -> (object: serde_json::Map<String, Value>)
    ensures
        (entries(object) == Map::<Seq<char>, Value>::empty()),
{
    serde_json::Map::new()
}

/// `Map::insert`: the key now has the value, in place of any it had; no other
/// key changes.
#[verifier::external_body]
pub(crate) fn insert(object: &mut serde_json::Map<String, Value>, key: String, value: Value)
    ensures
        entries(*final(object)) == entries(*old(object)).insert(key@, value),
{
    object.insert(key, value);
}

/// `Map::iter`: every entry, once each.
#[verifier::external_body]
pub(crate) fn items(object: &serde_json::Map<String, Value>) -> (r: Vec<(String, Value)>)
    ensures
        forall|i: int|
            0 <= i < r@.len() ==> entries(*object).contains_key((#[trigger] r@[i]).0@)
                && entries(*object)[r@[i].0@] == r@[i].1,
        forall|key: Seq<char>| #[trigger]
            entries(*object).contains_key(key) ==> exists|i: int|
                0 <= i < r@.len() && (#[trigger] r@[i]).0@ == key,
        forall|i: int, j: int| 0 <= i < j < r@.len() ==> (#[trigger] r@[i]).0@ != (#[trigger] r@[j]).0@,
{
    object.iter().map(|(key, value)| (key.clone(), value.clone())).collect()
}

/// `Map::clone`: an object with the same entries.
#[verifier::external_body]
pub(crate) fn copy(object: &serde_json::Map<String, Value>) -> (r: serde_json::Map<String, Value>)
    ensures
        entries(r) == entries(*object),
{
    object.clone()
}

} // verus!
