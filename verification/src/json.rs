//! JSON values of `serde_json`, as far as this library builds and writes them.
//!
//! A `serde_json::Value` is opaque to the verifier. What one holds is named by
//! [`json_view`], a tree of plain values, and each function below says what the
//! value it builds holds. None of these contracts is proved: they restate what
//! `serde_json` and `indexmap` do.

use crate::assoc::assoc_insert;
use vstd::prelude::*;

verus! {

#[verifier::external_type_specification]
#[verifier::external_body]
pub struct ExJsonValue(serde_json::Value);

#[verifier::external_type_specification]
#[verifier::external_body]
#[verifier::reject_recursive_types(K)]
#[verifier::reject_recursive_types(V)]
pub struct ExJsonMap<K, V>(serde_json::Map<K, V>);

#[verifier::external_type_specification]
#[verifier::external_body]
pub struct ExJsonError(serde_json::Error);

/// What a JSON value holds.
pub enum Json {
    Null,
    Bool(bool),
    /// A number that is an integer.
    Int(int),
    /// A number that is not an integer, by the text that stands for it.
    Real(Seq<char>),
    Text(Seq<char>),
    Array(Seq<Json>),
    /// The members of an object in the order in which they are written; no
    /// key occurs twice.
    Object(Seq<(Seq<char>, Json)>),
}

/// What the JSON value `v` holds.
pub uninterp spec fn json_view(v: serde_json::Value) -> Json;

/// The members of the map `m`, in its order.
pub uninterp spec fn json_entries(m: serde_json::Map<String, serde_json::Value>) -> Seq<
    (Seq<char>, Json),
>;

/// The compact JSON text that `serde_json::to_string` writes for a value that
/// holds `j`; `None` where it reports an error instead.
pub uninterp spec fn json_text(j: Json) -> Option<Seq<char>>;

/// `serde_json::Value::Null`: the value holds null.
#[verifier::external_body]
pub(crate) fn json_null() -> (v: serde_json::Value)
    ensures
        json_view(v) == Json::Null,
{
    serde_json::Value::Null
}

/// `serde_json::Value::Bool`: the value holds the boolean `b`.
#[verifier::external_body]
pub(crate) fn json_bool(b: bool) -> (v: serde_json::Value)
    ensures
        json_view(v) == Json::Bool(b),
{
    serde_json::Value::Bool(b)
}

/// `serde_json::Number::from` for an `i64`, inside `serde_json::Value::Number`:
/// the value holds the integer `i`.
#[verifier::external_body]
pub(crate) fn json_int(i: i64) -> (v: serde_json::Value)
    ensures
        json_view(v) == Json::Int(i as int),
{
    serde_json::Value::Number(serde_json::Number::from(i))
}

/// `serde_json::Value::String`: the value holds the text of `s`.
#[verifier::external_body]
pub(crate) fn json_string(s: String) -> (v: serde_json::Value)
    ensures
        json_view(v) == Json::Text(s@),
{
    serde_json::Value::String(s)
}

/// `serde_json::Value::Array`: the value holds the items of `items`, in order.
#[verifier::external_body]
pub(crate) fn json_array(items: Vec<serde_json::Value>) -> (v: serde_json::Value)
    ensures
        json_view(v) == Json::Array(Seq::new(items@.len(), |i: int| json_view(items@[i]))),
{
    serde_json::Value::Array(items)
}

/// `serde_json::Map::new`: the map has no member.
#[verifier::external_body]
pub(crate) fn json_map_new() -> (m: serde_json::Map<String, serde_json::Value>)
    ensures
        json_entries(m) == Seq::<(Seq<char>, Json)>::empty(),
{
    serde_json::Map::new()
}

/// `serde_json::Map::insert`, with the map kept in insertion order: a key that
/// is present keeps its place and gets the new value, a new key goes last.
#[verifier::external_body]
pub(crate) fn json_map_insert(
    m: &mut serde_json::Map<String, serde_json::Value>,
    key: String,
    value: serde_json::Value,
)
    ensures
        json_entries(*final(m)) == assoc_insert(json_entries(*old(m)), key@, json_view(value)),
{
    m.insert(key, value);
}

/// `serde_json::Value::Object`: the value holds the members of `m`, in its order.
#[verifier::external_body]
pub(crate) fn json_object(m: serde_json::Map<String, serde_json::Value>) -> (v: serde_json::Value)
    ensures
        json_view(v) == Json::Object(json_entries(m)),
{
    serde_json::Value::Object(m)
}

/// `Clone::clone` of a `serde_json::Value`: the copy holds what the original holds.
pub assume_specification[ <serde_json::Value as Clone>::clone ](v: &serde_json::Value) -> (copy:
    serde_json::Value)
    ensures
        json_view(copy) == json_view(*v),
;

/// `serde_json::to_string` on a `serde_json::Value`: the text is the one that
/// [`json_text`] names for what the value holds, and an error comes where
/// [`json_text`] names none.
#[verifier::external_body]
pub(crate) fn json_to_string(v: &serde_json::Value) -> (r: Result<String, serde_json::Error>)
    ensures
        match r {
            Ok(s) => json_text(json_view(*v)) == Some(s@),
            Err(_) => json_text(json_view(*v)) is None,
        },
{
    serde_json::to_string(v)
}

} // verus!
