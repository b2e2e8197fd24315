//! The JSON values of `serde_json`: what they say, and what is believed of the calls
//! into that crate.
//!
//! A `serde_json::Value` is opaque here. `json_of` is what it says, and every item
//! below speaks of values through `json_of` and `members_of` alone. What is claimed
//! holds of `serde_json` with its default features, as this crate takes it.

use vstd::prelude::*;

use crate::strings::on_one_line;

verus! {

/// What a JSON value says.
pub enum Json {
    Null,
    Bool(bool),
    /// A number that is held as a 64-bit integer.
    Integer(int),
    /// Any other number, by the text that it prints as.
    Float(Seq<char>),
    Text(Seq<char>),
    Array(Seq<Json>),
    Object(Map<Seq<char>, Json>),
}

/// How many arrays and objects the parser lets stand inside each other.
pub open spec fn nesting_limit() -> nat {
    127
}

/// No more than `levels` arrays and objects stand inside each other in `json`.
pub open spec fn nested_within(json: Json, levels: nat) -> bool
    decreases levels,
{
    match json {
        Json::Array(items) => {
            &&& levels > 0
            &&& forall|i: int|
                0 <= i < items.len() ==> nested_within(#[trigger] items[i], (levels - 1) as nat)
        },
        Json::Object(members) => {
            &&& levels > 0
            &&& forall|key: Seq<char>|
                members.dom().contains(key) ==> nested_within(
                    #[trigger] members[key],
                    (levels - 1) as nat,
                )
        },
        _ => true,
    }
}

/// The declaration of `serde_json::Value`.
#[verifier::external_type_specification]
#[verifier::external_body]
pub struct ExValue(serde_json::Value);

/// The declaration of `serde_json::Map`, which holds the members of an object.
#[verifier::external_type_specification]
#[verifier::external_body]
#[verifier::reject_recursive_types(K)]
#[verifier::reject_recursive_types(V)]
pub struct ExMembers<K, V>(serde_json::Map<K, V>);

/// The declaration of `serde_json::Error`.
#[verifier::external_type_specification]
#[verifier::external_body]
pub struct ExError(serde_json::Error);

/// What a `serde_json::Value` says.
pub uninterp spec fn json_of(value: serde_json::Value) -> Json;

/// The members that a `serde_json::Map` holds, by their keys.
pub uninterp spec fn members_of(
    members: serde_json::Map<String, serde_json::Value>,
) -> Map<Seq<char>, Json>;

/// What `serde_json::from_str` makes of a text: nothing where it reports an error.
pub uninterp spec fn json_of_text(text: Seq<char>) -> Option<Json>;

/// What `serde_json::from_slice` makes of raw bytes: nothing where it reports an error.
pub uninterp spec fn json_of_bytes(bytes: Seq<u8>) -> Option<Json>;

/// The text that `serde_json` prints for a value, in its compact form.
pub uninterp spec fn text_of_json(json: Json) -> Seq<char>;

/// Every float in `json` is the one that the parser makes of its text. The parser does not
/// promise that: it may miss the last digit of a float.
pub open spec fn floats_read_back(json: Json) -> bool
    decreases json,
{
    match json {
        Json::Float(text) => json_of_text(text) == Some(json),
        Json::Array(items) => forall|i: int|
            0 <= i < items.len() ==> floats_read_back(#[trigger] items[i]),
        Json::Object(members) => forall|key: Seq<char>|
            members.dom().contains(key) ==> floats_read_back(#[trigger] members[key]),
        _ => true,
    }
}

/// `text` parses again, and to `json` where the floats in `json` read back.
pub open spec fn parses_again(text: Seq<char>, json: Json) -> bool {
    &&& json_of_text(text) is Some
    &&& floats_read_back(json) ==> json_of_text(text) == Some(json)
}

/// What each of a row of values says.
pub open spec fn items_of(values: Seq<serde_json::Value>) -> Seq<Json> {
    values.map_values(|value: serde_json::Value| json_of(value))
}

/// What a parse came to: nothing where it reported an error.
pub open spec fn parsed(result: Result<serde_json::Value, serde_json::Error>) -> Option<Json> {
    match result {
        Ok(value) => Some(json_of(value)),
        Err(_) => None,
    }
}

/// The member `key` of an object; nothing where there is none or `json` is no object.
pub open spec fn member(json: Json, key: Seq<char>) -> Option<Json> {
    match json {
        Json::Object(members) => lookup(members, key),
        _ => None,
    }
}

/// What `members` holds under `key`, if anything.
pub open spec fn lookup(members: Map<Seq<char>, Json>, key: Seq<char>) -> Option<Json> {
    if members.dom().contains(key) {
        Some(members[key])
    } else {
        None
    }
}

/// `serde_json::from_str`: the result is named by `json_of_text`. A text that nests
/// deeper than the parser's limit is reported as an error.
#[verifier::external_body]
pub(crate) fn parse_text(text: &str) -> (result: Result<serde_json::Value, serde_json::Error>)
    ensures
        parsed(result) == json_of_text(text@),
        result matches Ok(value) ==> nested_within(json_of(value), nesting_limit()),
{
    serde_json::from_str(text)
}

/// `serde_json::from_slice`: the result is named by `json_of_bytes`.
#[verifier::external_body]
pub(crate) fn parse_bytes(bytes: &[u8]) -> (result: Result<serde_json::Value, serde_json::Error>)
    ensures
        parsed(result) == json_of_bytes(bytes@),
{
    serde_json::from_slice(bytes)
}

/// The `Display` of `serde_json::Value`: the printed text is named by `text_of_json`.
/// It holds no line break, since line breaks inside strings are escaped. It parses again,
/// provided that the parser admits the nesting: a printed float is finite and stays in the
/// parser's range. It parses to the same value where each float does on its own.
#[verifier::external_body]
pub(crate) fn print(value: &serde_json::Value) -> (text: String)
    ensures
        text@ == text_of_json(json_of(*value)),
        on_one_line(text@),
        nested_within(json_of(*value), nesting_limit()) ==> json_of_text(text@) is Some,
        nested_within(json_of(*value), nesting_limit()) && floats_read_back(json_of(*value))
            ==> json_of_text(text@) == Some(json_of(*value)),
{
    value.to_string()
}

/// `serde_json::Value::as_bool`: the boolean that a value is, if it is one.
pub assume_specification[ serde_json::Value::as_bool ](value: &serde_json::Value) -> (result:
    Option<bool>)
    ensures
        result == (match json_of(*value) {
            Json::Bool(b) => Some(b),
            _ => None,
        }),
;

/// `serde_json::Value::as_str`: the text of a string, if the value is one.
pub assume_specification[ serde_json::Value::as_str ](value: &serde_json::Value) -> (result:
    Option<&str>)
    ensures
        match json_of(*value) {
            Json::Text(text) => result is Some && result->0@ == text,
            _ => result is None,
        },
;

/// `serde_json::Value::as_array_mut`: the items of an array, to be changed in place.
pub assume_specification[ serde_json::Value::as_array_mut ](
    value: &mut serde_json::Value,
) -> (result: Option<&mut Vec<serde_json::Value>>)
    ensures
        match json_of(*old(value)) {
            Json::Array(items) => {
                &&& result is Some
                &&& items_of(result->0@) == items
                &&& json_of(*final(value)) == Json::Array(items_of(final(result->0)@))
            },
            _ => result is None && *final(value) == *old(value),
        },
;

/// `serde_json::Value::as_object_mut`: the members of an object, to be changed in place.
pub assume_specification[ serde_json::Value::as_object_mut ](
    value: &mut serde_json::Value,
) -> (result: Option<&mut serde_json::Map<String, serde_json::Value>>)
    ensures
        match json_of(*old(value)) {
            Json::Object(members) => {
                &&& result is Some
                &&& members_of(*result->0) == members
                &&& json_of(*final(value)) == Json::Object(members_of(*final(result->0)))
            },
            _ => result is None && *final(value) == *old(value),
        },
;

/// `serde_json::Value::get` with a key: that member of an object.
#[verifier::external_body]
pub(crate) fn get<'a>(value: &'a serde_json::Value, key: &str) -> (result: Option<
    &'a serde_json::Value,
>)
    ensures
        match member(json_of(*value), key@) {
            Some(json) => result is Some && json_of(*result->0) == json,
            None => result is None,
        },
{
    value.get(key)
}

/// `serde_json::Value::get_mut` with a key: that member of an object, to be changed in
/// place. The other members stay as they are.
#[verifier::external_body]
pub(crate) fn get_mut<'a>(value: &'a mut serde_json::Value, key: &str) -> (result: Option<
    &'a mut serde_json::Value,
>)
    ensures
        match member(json_of(*old(value)), key@) {
            Some(json) => {
                &&& result is Some
                &&& json_of(*result->0) == json
                &&& json_of(*final(value)) == Json::Object(
                    json_of(*old(value))->Object_0.insert(key@, json_of(*final(result->0))),
                )
            },
            None => result is None && *final(value) == *old(value),
        },
{
    value.get_mut(key)
}

/// `serde_json::Map::get`: what is held under a key.
#[verifier::external_body]
pub(crate) fn get_member<'a>(
    members: &'a serde_json::Map<String, serde_json::Value>,
    key: &str,
) -> (result: Option<&'a serde_json::Value>)
    ensures
        match lookup(members_of(*members), key@) {
            Some(json) => result is Some && json_of(*result->0) == json,
            None => result is None,
        },
{
    members.get(key)
}

/// `serde_json::Map::remove`: takes a key out and returns what it held.
#[verifier::external_body]
pub(crate) fn remove_member(
    members: &mut serde_json::Map<String, serde_json::Value>,
    key: &str,
) -> (result: Option<serde_json::Value>)
    ensures
        members_of(*final(members)) == members_of(*old(members)).remove(key@),
        match lookup(members_of(*old(members)), key@) {
            Some(json) => result is Some && json_of(result->0) == json,
            None => result is None,
        },
{
    members.remove(key)
}

/// `serde_json::Map::insert`: puts a value under a key and returns what it held before.
#[verifier::external_body]
pub(crate) fn insert_member(
    members: &mut serde_json::Map<String, serde_json::Value>,
    key: String,
    value: serde_json::Value,
) -> (result: Option<serde_json::Value>)
    ensures
        members_of(*final(members)) == members_of(*old(members)).insert(key@, json_of(value)),
        match lookup(members_of(*old(members)), key@) {
            Some(json) => result is Some && json_of(result->0) == json,
            None => result is None,
        },
{
    members.insert(key, value)
}

/// `serde_json::Value::from` of a `String`: the string as a JSON value.
#[verifier::external_body]
pub(crate) fn text_value(text: String) -> (value: serde_json::Value)
    ensures
        json_of(value) == Json::Text(text@),
{
    serde_json::Value::from(text)
}

} // verus!
