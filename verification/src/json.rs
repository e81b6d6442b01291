//! JSON values, as `serde_json` parses and holds them.
//!
//! The crate reads JSON through this module only. What `serde_json` does is
//! not verified here: the contracts below say what is taken for granted.

use vstd::prelude::*;

verus! {

/// What a JSON value holds.
pub enum Json {
    Null,
    Bool(bool),
    /// A number: the integer that it is held as, or nothing where it is held
    /// as a floating-point number.
    Number(Option<int>),
    Text(Seq<char>),
    Array(Seq<Json>),
    Object(Map<Seq<char>, Json>),
}

/// A value of `serde_json`.
#[verifier::external_type_specification]
#[verifier::external_body]
pub struct ExValue(serde_json::Value);

/// What `value` holds.
pub uninterp spec fn json_of(value: serde_json::Value) -> Json;

/// What `bytes` hold when read as one JSON text, if they are one.
pub uninterp spec fn parsed_json(bytes: Seq<u8>) -> Option<Json>;

/// What the items of a row of values hold.
pub open spec fn jsons_of(values: Seq<serde_json::Value>) -> Seq<Json> {
    Seq::new(values.len(), |i: int| json_of(values[i]))
}

/// The member of an object that goes by `key`; none where there is no such
/// member, or where `json` is no object.
pub open spec fn member(json: Json, key: Seq<char>) -> Option<Json> {
    match json {
        Json::Object(members) => if members.contains_key(key) {
            Some(members[key])
        } else {
            None
        },
        _ => None,
    }
}

/// The integer that a JSON value is, where it is one.
pub open spec fn integer(json: Json) -> Option<int> {
    match json {
        Json::Number(held) => held,
        _ => None,
    }
}

/// `serde_json::from_slice`, for a `Value`: reads `bytes` as one JSON text.
/// The contract gives the outcome a name, [`parsed_json`], and says that the
/// value returned holds it; an error is reported as `None`.
#[verifier::external_body]
pub(crate) fn parse_json(bytes: &[u8]) -> (value: Option<serde_json::Value>)
    ensures
        match value {
            Some(v) => parsed_json(bytes@) == Some(json_of(v)),
            None => parsed_json(bytes@) is None,
        },
{
    serde_json::from_slice(bytes).ok()
}

/// `serde_json::Value::get`, with a text as the index: the member of an
/// object that goes by `key`. The contract says that there is none where the
/// value is no object or the object has no such member.
#[verifier::external_body]
pub(crate) fn get_member<'a>(value: &'a serde_json::Value, key: &str) -> (found: Option<
    &'a serde_json::Value,
>)
    ensures
        match found {
            Some(v) => member(json_of(*value), key@) == Some(json_of(*v)),
            None => member(json_of(*value), key@) is None,
        },
{
    value.get(key)
}

/// `serde_json::Value::as_str`: the text of a value that is a text, and
/// `None` for any other value.
#[verifier::external_body]
pub(crate) fn as_text(value: &serde_json::Value) -> (text: Option<&str>)
    ensures
        match text {
            Some(t) => json_of(*value) == Json::Text(t@),
            None => !(json_of(*value) is Text),
        },
{
    value.as_str()
}

/// `serde_json::Value::as_i64`: the number that a value is, where it is an
/// integer that an `i64` can hold, and `None` for any other value.
#[verifier::external_body]
pub(crate) fn as_i64(value: &serde_json::Value) -> (number: Option<i64>)
    ensures
        match number {
            Some(n) => integer(json_of(*value)) == Some(n as int),
            None => match integer(json_of(*value)) {
                Some(n) => !(i64::MIN <= n <= i64::MAX),
                None => true,
            },
        },
{
    value.as_i64()
}

/// `serde_json::Value::as_u64`: the number that a value is, where it is an
/// integer that a `u64` can hold, and `None` for any other value.
#[verifier::external_body]
pub(crate) fn as_u64(value: &serde_json::Value) -> (number: Option<u64>)
    ensures
        match number {
            Some(n) => integer(json_of(*value)) == Some(n as int),
            None => match integer(json_of(*value)) {
                Some(n) => !(0 <= n <= u64::MAX),
                None => true,
            },
        },
{
    value.as_u64()
}

/// `serde_json::Value::as_array`: the items of a value that is an array, in
/// their order, and `None` for any other value.
#[verifier::external_body]
pub(crate) fn as_array(value: &serde_json::Value) -> (items: Option<&Vec<serde_json::Value>>)
    ensures
        match items {
            Some(row) => json_of(*value) == Json::Array(jsons_of(row@)),
            None => !(json_of(*value) is Array),
        },
{
    value.as_array()
}

/// `serde_json::Value::is_null`: whether a value is `null`.
#[verifier::external_body]
pub(crate) fn is_null(value: &serde_json::Value) -> (null: bool)
    ensures
        null == (json_of(*value) is Null),
{
    value.is_null()
}

/// `serde_json::Value::is_object`: whether a value is an object.
#[verifier::external_body]
pub(crate) fn is_object(value: &serde_json::Value) -> (object: bool)
    ensures
        object == (json_of(*value) is Object),
{
    value.is_object()
}

} // verus!
