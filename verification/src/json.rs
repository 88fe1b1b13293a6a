//! JSON values, as `serde_json` provides them.
//!
//! A `serde_json::Value` is opaque to the verifier. What the library reads
//! from one, or builds into one, goes through the functions of this module.
//! Each of them makes a single call into `serde_json`; its contract is taken
//! on trust and names what the call returns. The names are uninterpreted:
//! they fix that equal arguments give equal results, and nothing else.
//!
//! `serde_json` is used as it comes, without its feature `preserve_order`:
//! an object keeps its entries ordered by key, so what an object is, and
//! how it is written, does not depend on the order in which its entries
//! were put in.

use serde_json::Value;
use vstd::prelude::*;

verus! {

/// A JSON value of `serde_json`.
#[verifier::external_type_specification]
#[verifier::external_body]
pub struct ExValue(serde_json::Value);

/// A JSON object of `serde_json`: a map from keys to values, ordered by key.
#[verifier::external_type_specification]
#[verifier::external_body]
#[verifier::reject_recursive_types(K)]
#[verifier::reject_recursive_types(V)]
pub struct ExObject<K, V>(serde_json::Map<K, V>);

/// The compact JSON text that `serde_json::to_string` writes for a value.
pub uninterp spec fn json_text(v: Value) -> Seq<char>;

/// The value that `serde_json::from_str` reads from a text, `None` where it reports an error.
pub uninterp spec fn json_parsed(text: Seq<char>) -> Option<Value>;

/// The member that `Value::get` finds under a string key.
pub uninterp spec fn json_member(v: Value, key: Seq<char>) -> Option<Value>;

/// The string that `Value::as_str` finds in a value.
pub uninterp spec fn json_as_str(v: Value) -> Option<Seq<char>>;

/// The elements that `Value::as_array` finds in a value.
pub uninterp spec fn json_as_array(v: Value) -> Option<Seq<Value>>;

/// What `Value::is_null` answers for a value.
pub uninterp spec fn json_is_null(v: Value) -> bool;

/// The truth value that `Value::as_bool` finds in a value.
pub uninterp spec fn json_as_bool(v: Value) -> Option<bool>;

/// The entries that `Value::as_object` finds in a value.
pub uninterp spec fn json_as_object(v: Value) -> Option<Map<Seq<char>, Value>>;

/// The value that `serde_json::from_slice` reads from bytes, `None` where it reports an error.
pub uninterp spec fn json_parsed_bytes(bytes: Seq<u8>) -> Option<Value>;

/// The integer that `Value::as_i64` finds in a value.
pub uninterp spec fn json_as_i64(v: Value) -> Option<i64>;

/// The entries that a `serde_json::Map` holds.
pub uninterp spec fn object_entries(m: serde_json::Map<String, Value>) -> Map<Seq<char>, Value>;

/// The empty set of entries.
pub open spec fn no_entries() -> Map<Seq<char>, Value> {
    Map::empty()
}

/// The value `Value::Object` makes of a map with the given entries.
pub uninterp spec fn json_object(entries: Map<Seq<char>, Value>) -> Value;

/// The value `Value::String` makes of a string.
pub uninterp spec fn json_string(s: Seq<char>) -> Value;

/// The value `Value::Array` makes of a list of values.
pub uninterp spec fn json_array(items: Seq<Value>) -> Value;

/// The value `Value::Bool` makes of a truth value.
pub uninterp spec fn json_bool(b: bool) -> Value;

/// The value that `Value::from` makes of a signed integer.
pub uninterp spec fn json_integer(n: i64) -> Value;

/// Calls `serde_json::to_string`. The result is the compact JSON text of the
/// value; should the serializer report an error, the text is empty.
#[verifier::external_body]
pub(crate) fn to_text(v: &Value) -> (r: String)
    ensures
        r@ == json_text(*v),
{
    serde_json::to_string(v).unwrap_or_default()
}

/// Calls `serde_json::from_str` for a `Value`. The result is the value read,
/// or `None` where the text is not one JSON document.
#[verifier::external_body]
pub(crate) fn parse(text: &str) -> (r: Option<Value>)
    ensures
        r == json_parsed(text@),
{
    serde_json::from_str::<Value>(text).ok()
}

/// Calls `serde_json::from_slice` for a `Value`. The result is the value
/// read, or `None` where the bytes are not one JSON document.
#[verifier::external_body]
pub(crate) fn parse_bytes(bytes: &Vec<u8>) -> (r: Option<Value>)
    ensures
        r == json_parsed_bytes(bytes@),
{
    serde_json::from_slice::<Value>(bytes).ok()
}

/// Calls `Value::as_i64`. The result is the integer held when the value is
/// a number that fits.
#[verifier::external_body]
pub(crate) fn as_i64(v: &Value) -> (r: Option<i64>)
    ensures
        r == json_as_i64(*v),
{
    v.as_i64()
}

/// Calls `Value::get` with a string key. The result is the member stored
/// under that key when the value is an object that has it.
#[verifier::external_body]
pub(crate) fn member<'a>(v: &'a Value, key: &str) -> (r: Option<&'a Value>)
    ensures
        match r {
            Some(m) => json_member(*v, key@) == Some(*m),
            None => json_member(*v, key@) is None,
        },
{
    v.get(key)
}

/// Calls `Value::as_str`. The result is the string held when the value is a string.
#[verifier::external_body]
pub(crate) fn as_str<'a>(v: &'a Value) -> (r: Option<&'a str>)
    ensures
        match r {
            Some(s) => json_as_str(*v) == Some(s@),
            None => json_as_str(*v) is None,
        },
{
    v.as_str()
}

/// Calls `Value::as_array`. The result is the elements held when the value is an array.
#[verifier::external_body]
pub(crate) fn as_array<'a>(v: &'a Value) -> (r: Option<&'a Vec<Value>>)
    ensures
        match r {
            Some(a) => json_as_array(*v) == Some(a@),
            None => json_as_array(*v) is None,
        },
{
    v.as_array()
}

/// Calls `Value::is_null`.
#[verifier::external_body]
pub(crate) fn is_null(v: &Value) -> (r: bool)
    ensures
        r == json_is_null(*v),
{
    v.is_null()
}

/// Calls `Value::as_bool`. The result is the truth value held when the
/// value is a boolean.
#[verifier::external_body]
pub(crate) fn as_bool(v: &Value) -> (r: Option<bool>)
    ensures
        r == json_as_bool(*v),
{
    v.as_bool()
}

/// Calls `Value::as_object`. The result is the map held when the value is
/// an object.
#[verifier::external_body]
pub(crate) fn as_object<'a>(v: &'a Value) -> (r: Option<&'a serde_json::Map<String, Value>>)
    ensures
        match r {
            Some(m) => json_as_object(*v) == Some(object_entries(*m)),
            None => json_as_object(*v) is None,
        },
{
    v.as_object()
}

/// `Value::clone` gives a copy that is the same JSON value.
pub assume_specification[ <serde_json::Value as Clone>::clone ](v: &Value) -> (r: Value)
    ensures
        r == *v,
;

/// `Map::clone` gives a copy that is the same map.
pub assume_specification[ <serde_json::Map<String, Value> as Clone>::clone ](
    m: &serde_json::Map<String, Value>,
) -> (r: serde_json::Map<String, Value>)
    ensures
        r == *m,
;

/// Makes `Value::Null`, the value for which `Value::is_null` holds.
#[verifier::external_body]
pub(crate) fn null_value() -> (r: Value)
    ensures
        json_is_null(r),
{
    Value::Null
}

/// Makes `Value::String` of the given string: a value that is not null and
/// no array, and in which `Value::as_str` finds that string.
#[verifier::external_body]
pub(crate) fn string_value(s: String) -> (r: Value)
    ensures
        r == json_string(s@),
        json_as_str(r) == Some(s@),
        !json_is_null(r),
        json_as_array(r) is None,
{
    Value::String(s)
}

/// Makes `Value::Bool` of the given truth value.
#[verifier::external_body]
pub(crate) fn bool_value(b: bool) -> (r: Value)
    ensures
        r == json_bool(b),
{
    Value::Bool(b)
}

/// Calls `Value::from` on a signed integer. The result is the JSON number
/// of that integer.
#[verifier::external_body]
pub(crate) fn integer_value(n: i64) -> (r: Value)
    ensures
        r == json_integer(n),
{
    Value::from(n)
}

/// Makes `Value::Array` of the given values.
#[verifier::external_body]
pub(crate) fn array_value(items: Vec<Value>) -> (r: Value)
    ensures
        r == json_array(items@),
{
    Value::Array(items)
}

/// Calls `Map::new`. The new map has no entry.
#[verifier::external_body]
pub(crate) fn new_object() -> (m: serde_json::Map<String, Value>)
    ensures
        object_entries(m) == no_entries(),
{
    serde_json::Map::new()
}

/// Calls `Map::insert`. The map then holds the value under the key, in place
/// of any earlier value there, and every other entry as before.
#[verifier::external_body]
pub(crate) fn object_insert(
    m: &mut serde_json::Map<String, Value>,
    key: String,
    value: Value,
)
    ensures
        object_entries(*final(m)) == object_entries(*old(m)).insert(key@, value),
{
    m.insert(key, value);
}

/// Calls `Map::append`. The map then holds every entry of the other map,
/// in place of any entry of its own under the same key, and its other
/// entries as before.
#[verifier::external_body]
pub(crate) fn object_append(
    m: &mut serde_json::Map<String, Value>,
    other: serde_json::Map<String, Value>,
)
    ensures
        object_entries(*final(m)) == object_entries(*old(m)).union_prefer_right(
            object_entries(other),
        ),
{
    let mut moved = other;
    m.append(&mut moved);
}

/// Makes `Value::Object` of the given map.
#[verifier::external_body]
pub(crate) fn object_value(m: serde_json::Map<String, Value>) -> (r: Value)
    ensures
        r == json_object(object_entries(m)),
{
    Value::Object(m)
}

/// The string member of a JSON value under a key, where it has one.
pub open spec fn string_member(v: Value, key: Seq<char>) -> Option<Seq<char>> {
    match json_member(v, key) {
        Some(m) => json_as_str(m),
        None => None,
    }
}

/// The text of an optional string: empty where it is absent.
pub open spec fn text_or_empty(s: Option<Seq<char>>) -> Seq<char> {
    match s {
        Some(t) => t,
        None => Seq::empty(),
    }
}

/// The string member of a JSON value under a key, where it has one.
pub fn string_member_of(v: &Value, key: &str) -> (r: Option<String>)
    ensures
        match r {
            Some(s) => string_member(*v, key@) == Some(s@),
            None => string_member(*v, key@) is None,
        },
{
    match member(v, key) {
        Some(m) => match as_str(m) {
            Some(s) => Some(s.to_owned()),
            None => None,
        },
        None => None,
    }
}

/// The string member of a JSON value under a key, empty where it has none.
pub fn string_member_or_empty(v: &Value, key: &str) -> (r: String)
    ensures
        r@ == text_or_empty(string_member(*v, key@)),
{
    match string_member_of(v, key) {
        Some(s) => s,
        None => String::new(),
    }
}

} // verus!
