//! JSON values. The values themselves are `serde_json::Value`; this module says
//! what they hold and wraps the few operations on them that the library needs.

use serde_json::Value;
use vstd::prelude::*;

verus! {

/// What a JSON value holds. An object maps each of its keys to a value; the
/// order in which the keys were added is no part of it.
pub enum Json {
    Null,
    Bool(bool),
    /// A number, by its text.
    Number(Seq<char>),
    Text(Seq<char>),
    Array(Seq<Json>),
    Object(Map<Seq<char>, Json>),
}

impl Json {
    /// The value without the entry at `key`. Only an object has entries.
    pub open spec fn without(self, key: Seq<char>) -> Json {
        match self {
            Json::Object(entries) => Json::Object(entries.remove(key)),
            other => other,
        }
    }
}

#[verifier::external_type_specification]
#[verifier::external_body]
pub struct ExValue(Value);

/// The contents of a `serde_json::Value`.
pub uninterp spec fn json(value: Value) -> Json;

/// The contents of a list of values.
pub open spec fn json_list(values: Seq<Value>) -> Seq<Json> {
    values.map_values(|value: Value| json(value))
}

/// The contents of an optional value.
pub open spec fn json_option(value: Option<Value>) -> Option<Json> {
    match value {
        Some(value) => Some(json(value)),
        None => None,
    }
}

/// `serde_json::Value::String`: a value that holds the given text.
#[verifier::external_body]
pub(crate) fn text_value(text: &str) -> (value: Value)
    ensures
        json(value) == Json::Text(text@),
{
    Value::String(text.to_owned())
}

/// `serde_json::Value::Bool`: a value that holds the given truth value.
#[verifier::external_body]
pub(crate) fn bool_value(truth: bool) -> (value: Value)
    ensures
        json(value) == Json::Bool(truth),
{
    Value::Bool(truth)
}

/// `serde_json::Value::Array`: a value that holds the given values in order.
#[verifier::external_body]
pub(crate) fn array_value(items: Vec<Value>) -> (value: Value)
    ensures
        json(value) == Json::Array(json_list(items@)),
{
    Value::Array(items)
}

/// `serde_json::Map::new` as a `Value::Object`: an object without entries.
#[verifier::external_body]
pub(crate) fn empty_object() -> (value: Value)
    ensures
        json(value) == Json::Object(Map::empty()),
{
    Value::Object(serde_json::Map::new())
}

/// `serde_json::Map::insert` on the map of an object: the key then has the
/// given value, and the other entries stay as they were.
#[verifier::external_body]
pub(crate) fn set_entry(object: &mut Value, key: &str, value: Value)
    requires
        json(*old(object)) is Object,
    ensures
        json(*final(object)) == Json::Object(json(*old(object))->Object_0.insert(key@, json(value))),
{
    if let Value::Object(entries) = object {
        entries.insert(key.to_owned(), value);
    }
}

/// `serde_json::Map::remove` on what `serde_json::Value::as_object_mut` gives:
/// an object loses its entry at the key, and any other value stays as it was.
#[verifier::external_body]
pub(crate) fn remove_entry(value: &mut Value, key: &str)
    ensures
        json(*final(value)) == json(*old(value)).without(key@),
{
    if let Some(entries) = value.as_object_mut() {
        entries.remove(key);
    }
}

/// `Clone::clone` of `serde_json::Value`: a value with the same contents.
#[verifier::external_body]
pub(crate) fn copy_value(value: &Value) -> (copy: Value)
    ensures
        json(copy) == json(*value),
{
    value.clone()
}

/// Copies of a list of values.
pub fn copy_values(values: &Vec<Value>) -> (copies: Vec<Value>)
    ensures
        json_list(copies@) == json_list(values@),
{
    let mut copies: Vec<Value> = Vec::new();
    let mut i: usize = 0;
    while i < values.len()
        invariant
            i <= values.len(),
            copies@.len() == i,
            forall|j: int| 0 <= j < i ==> json(#[trigger] copies@[j]) == json(values@[j]),
        decreases values.len() - i,
    {
        copies.push(copy_value(&values[i]));
        i += 1;
    }
    assert(json_list(copies@) =~= json_list(values@));
    copies
}

/// A copy of an optional value.
pub fn copy_option_value(value: &Option<Value>) -> (copy: Option<Value>)
    ensures
        json_option(copy) == json_option(*value),
{
    match value {
        Some(value) => Some(copy_value(value)),
        None => None,
    }
}

/// An object with one entry.
pub(crate) fn object1(key: &str, value: Value) -> (object: Value)
    ensures
        json(object) == Json::Object(Map::empty().insert(key@, json(value))),
{
    let mut object = empty_object();
    set_entry(&mut object, key, value);
    object
}

/// An object with two entries, the second set after the first.
pub(crate) fn object2(key1: &str, value1: Value, key2: &str, value2: Value) -> (object: Value)
    ensures
        json(object) == Json::Object(
            Map::empty().insert(key1@, json(value1)).insert(key2@, json(value2)),
        ),
{
    let mut object = object1(key1, value1);
    set_entry(&mut object, key2, value2);
    object
}

/// An array of one value.
pub(crate) fn array1(item: Value) -> (array: Value)
    ensures
        json(array) == Json::Array(seq![json(item)]),
{
    let mut items: Vec<Value> = Vec::new();
    items.push(item);
    assert(json_list(items@) =~= seq![json(item)]);
    array_value(items)
}

/// Only an object loses anything, and only the entry at the key.
pub proof fn only_the_entry_is_taken(value: Json, key: Seq<char>, other: Seq<char>)
    requires
        other != key,
    ensures
        !(value is Object) ==> value.without(key) == value,
        value matches Json::Object(entries) ==> {
            let left = value.without(key)->Object_0;
            &&& value.without(key) is Object
            &&& !left.dom().contains(key)
            &&& left.dom().contains(other) == entries.dom().contains(other)
            &&& entries.dom().contains(other) ==> left[other] == entries[other]
        },
{
}

/// Lists and options of values are seen value by value.
pub proof fn values_are_seen_whole(values: Seq<Value>, value: Value)
    ensures
        json_list(values).len() == values.len(),
        forall|i: int| 0 <= i < values.len() ==> json_list(values)[i] == json(#[trigger] values[i]),
        json_option(Some(value)) == Some(json(value)),
        json_option(None) is None,
{
}

}
