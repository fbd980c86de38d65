//! JSON read through serde_json: what a parsed value holds, as the library
//! reads it.

use vstd::prelude::*;

verus! {

/// A JSON number as serde_json keeps it: a non-negative integer, a negative
/// integer, or a float (whose value the library does not read).
pub enum JsonNumber {
    PosInt(u64),
    NegInt(i64),
    Float,
}

/// One entry of a JSON object.
pub struct JsonEntry {
    pub key: Seq<char>,
    pub value: JsonModel,
}

/// A JSON value. An object lists its entries in the order its map iterates
/// them.
pub enum JsonModel {
    Null,
    Bool(bool),
    Number(JsonNumber),
    Str(Seq<char>),
    Array(Seq<JsonModel>),
    Object(Seq<JsonEntry>),
}

/// The value of the first entry with key `key`.
pub open spec fn entry_value(es: Seq<JsonEntry>, key: Seq<char>) -> Option<JsonModel>
    decreases es.len(),
{
    if es.len() == 0 {
        None
    } else if es[0].key == key {
        Some(es[0].value)
    } else {
        entry_value(es.drop_first(), key)
    }
}

/// `Value::get` with a string key: the field of an object, `None` for a
/// missing key or a value that is not an object.
pub open spec fn json_field(v: JsonModel, key: Seq<char>) -> Option<JsonModel> {
    match v {
        JsonModel::Object(es) => entry_value(es, key),
        _ => None,
    }
}

/// `Value::as_u64`.
pub open spec fn json_as_u64(v: JsonModel) -> Option<u64> {
    match v {
        JsonModel::Number(JsonNumber::PosInt(n)) => Some(n),
        _ => None,
    }
}

/// `Value::as_str`.
pub open spec fn json_as_str(v: JsonModel) -> Option<Seq<char>> {
    match v {
        JsonModel::Str(s) => Some(s),
        _ => None,
    }
}

/// `Value::as_bool`.
pub open spec fn json_as_bool(v: JsonModel) -> Option<bool> {
    match v {
        JsonModel::Bool(b) => Some(b),
        _ => None,
    }
}

#[verifier::external_type_specification]
#[verifier::external_body]
pub struct ExJsonValue(serde_json::Value);

#[verifier::external_type_specification]
#[verifier::external_body]
#[verifier::reject_recursive_types(K)]
#[verifier::reject_recursive_types(V)]
pub struct ExJsonMap<K, V>(serde_json::Map<K, V>);

/// What a `serde_json::Value` holds.
pub uninterp spec fn json_value(v: serde_json::Value) -> JsonModel;

/// The entries of a `serde_json::Map`, in the order it iterates them.
pub uninterp spec fn json_entries(m: serde_json::Map<String, serde_json::Value>) -> Seq<JsonEntry>;

/// What `serde_json::from_slice` reads from bytes as a JSON array: its
/// elements, or `None` when the bytes are not a single JSON array.
pub uninterp spec fn json_array_text(bytes: Seq<u8>) -> Option<Seq<JsonModel>>;

/// Calls `serde_json::from_slice::<Vec<serde_json::Value>>`. Its result is
/// named: the elements read, or `None` where serde_json returns an error.
#[verifier::external_body]
pub(crate) fn parse_json_array(bytes: &[u8]) -> (r: Option<Vec<serde_json::Value>>)
    ensures
        match r {
            Some(vs) => json_array_text(bytes@) == Some(vs@.map_values(|v: serde_json::Value| json_value(v))),
            None => json_array_text(bytes@) is None,
        },
{
    serde_json::from_slice::<Vec<serde_json::Value>>(bytes).ok()
}

/// Calls `serde_json::Value::get` with a string key: an object's value for
/// the key, `None` for a missing key or a value that is not an object.
#[verifier::external_body]
pub(crate) fn json_get<'a>(v: &'a serde_json::Value, key: &str) -> (r: Option<&'a serde_json::Value>)
    ensures
        match r {
            Some(x) => json_field(json_value(*v), key@) == Some(json_value(*x)),
            None => json_field(json_value(*v), key@) is None,
        },
{
    v.get(key)
}

/// Calls `serde_json::Value::as_u64`: a non-negative integer, else `None`.
#[verifier::external_body]
pub(crate) fn json_u64(v: &serde_json::Value) -> (r: Option<u64>)
    ensures
        r == json_as_u64(json_value(*v)),
{
    v.as_u64()
}

/// Calls `serde_json::Value::as_str` and copies the string: a string's
/// text, else `None`.
#[verifier::external_body]
pub(crate) fn json_string(v: &serde_json::Value) -> (r: Option<String>)
    ensures
        match r {
            Some(s) => json_as_str(json_value(*v)) == Some(s@),
            None => json_as_str(json_value(*v)) is None,
        },
{
    match v.as_str() {
        Some(s) => Some(s.to_string()),
        None => None,
    }
}

/// Calls `serde_json::Value::as_bool`: a boolean, else `None`.
#[verifier::external_body]
pub(crate) fn json_bool(v: &serde_json::Value) -> (r: Option<bool>)
    ensures
        r == json_as_bool(json_value(*v)),
{
    v.as_bool()
}

/// Calls `serde_json::Value::as_object`: an object's map, else `None`.
#[verifier::external_body]
pub(crate) fn json_object<'a>(v: &'a serde_json::Value) -> (r: Option<&'a serde_json::Map<String, serde_json::Value>>)
    ensures
        match r {
            Some(m) => json_value(*v) == JsonModel::Object(json_entries(*m)),
            None => !(json_value(*v) is Object),
        },
{
    v.as_object()
}

/// Calls `serde_json::Map::values` and takes the first value the map
/// iterates, `None` for an empty map.
#[verifier::external_body]
pub(crate) fn json_first_value<'a>(m: &'a serde_json::Map<String, serde_json::Value>) -> (r: Option<&'a serde_json::Value>)
    ensures
        match r {
            Some(x) => json_entries(*m).len() > 0 && json_value(*x) == json_entries(*m)[0].value,
            None => json_entries(*m).len() == 0,
        },
{
    m.values().next()
}

} // verus!
