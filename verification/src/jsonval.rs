//! Trusted boundary around `serde_json::Value`.
//!
//! The daemon carries transcript records through as opaque JSON values;
//! the wrappers here are the only places that touch serde_json from
//! verified code.  Each accessor's result is a function of the value
//! alone, so it is tied to a name that contracts downstream can speak of.

use vstd::prelude::*;

verus! {

#[verifier::external_type_specification]
#[verifier::external_body]
pub struct ExValue(serde_json::Value);

/// The value serde_json parses the bytes as, when they hold one
/// well-formed JSON value.  The result of a parse depends on the bytes
/// alone.  Names `serde_json::from_slice::<Value>`.
pub uninterp spec fn json_value_of(bytes: Seq<u8>) -> Option<serde_json::Value>;

/// Whether serde_json accepts the bytes as one JSON value.
pub open spec fn json_parses(bytes: Seq<u8>) -> bool {
    json_value_of(bytes) is Some
}

/// The member an object holds under a key, when the value is an object
/// with that key.  Names `Value::get`.
pub uninterp spec fn field_of(v: serde_json::Value, key: Seq<char>) -> Option<serde_json::Value>;

/// The characters of a JSON string value.  Names `Value::as_str`.
pub uninterp spec fn str_of(v: serde_json::Value) -> Option<Seq<char>>;

/// The number a JSON unsigned integer value holds.  Names
/// `Value::as_u64`.
pub uninterp spec fn u64_of(v: serde_json::Value) -> Option<u64>;

/// The flag a JSON boolean value holds.  Names `Value::as_bool`.
pub uninterp spec fn bool_of(v: serde_json::Value) -> Option<bool>;

/// The items of a JSON array value.  Names `Value::as_array`.
pub uninterp spec fn items_of(v: serde_json::Value) -> Option<Seq<serde_json::Value>>;

/// The canonical serialization of a value.  Names `serde_json::to_string`
/// on a `Value`, which is deterministic: object keys are stored ordered.
pub uninterp spec fn rendered_of(v: serde_json::Value) -> Seq<char>;

/// Relies on `serde_json::from_slice::<Value>`: succeeds exactly when the
/// bytes hold one well-formed JSON value, and the value is a function of
/// the bytes alone.
#[verifier::external_body]
pub fn json_parse(bytes: &Vec<u8>) -> (r: Option<serde_json::Value>)
    ensures
        r == json_value_of(bytes@),
{
    serde_json::from_slice::<serde_json::Value>(bytes.as_slice()).ok()
}

/// Relies on `serde_json::to_string`: serializing a `Value` never fails,
/// and the text depends on the value alone.
#[verifier::external_body]
pub fn json_to_string(v: &serde_json::Value) -> (r: String)
    ensures
        r@ == rendered_of(*v),
{
    serde_json::to_string(v).unwrap_or_else(|_| String::new())
}

/// Relies on `Value::clone`: the copy equals the original.
#[verifier::external_body]
pub fn json_clone(v: &serde_json::Value) -> (r: serde_json::Value)
    ensures
        r == *v,
{
    v.clone()
}

/// Relies on `Value::get`: looks the key up when the value is an object.
#[verifier::external_body]
pub fn json_get<'a>(v: &'a serde_json::Value, key: &str) -> (r: Option<
    &'a serde_json::Value,
>)
    ensures
        match r {
            Some(x) => field_of(*v, key@) == Some(*x),
            None => field_of(*v, key@) is None,
        },
{
    v.get(key)
}

/// Relies on `Value::as_str`: the string when the value is a JSON
/// string.
#[verifier::external_body]
pub fn json_as_str(v: &serde_json::Value) -> (r: Option<String>)
    ensures
        match r {
            Some(s) => str_of(*v) == Some(s@),
            None => str_of(*v) is None,
        },
{
    v.as_str().map(|s| s.to_string())
}

/// Relies on `Value::as_u64`: the number when the value is an unsigned
/// integer in range.
#[verifier::external_body]
pub fn json_as_u64(v: &serde_json::Value) -> (r: Option<u64>)
    ensures
        r == u64_of(*v),
{
    v.as_u64()
}

/// Relies on `Value::as_bool`: the flag when the value is a JSON
/// boolean.
#[verifier::external_body]
pub fn json_as_bool(v: &serde_json::Value) -> (r: Option<bool>)
    ensures
        r == bool_of(*v),
{
    v.as_bool()
}

/// Relies on `Value::as_array`: a copy of the items when the value is a
/// JSON array.
#[verifier::external_body]
pub fn json_as_array(v: &serde_json::Value) -> (r: Option<Vec<serde_json::Value>>)
    ensures
        match r {
            Some(items) => items_of(*v) == Some(items@),
            None => items_of(*v) is None,
        },
{
    v.as_array().cloned()
}

/// The string an object field holds: the lookup and the string view
/// composed.
pub open spec fn field_str_of(v: serde_json::Value, key: Seq<char>) -> Option<Seq<char>> {
    match field_of(v, key) {
        Some(x) => str_of(x),
        None => None,
    }
}

/// The number an object field holds.
pub open spec fn field_u64_of(v: serde_json::Value, key: Seq<char>) -> Option<u64> {
    match field_of(v, key) {
        Some(x) => u64_of(x),
        None => None,
    }
}

/// The flag an object field holds.
pub open spec fn field_bool_of(v: serde_json::Value, key: Seq<char>) -> Option<bool> {
    match field_of(v, key) {
        Some(x) => bool_of(x),
        None => None,
    }
}

/// Look a string field up on an object in one step.
pub fn json_get_str(v: &serde_json::Value, key: &str) -> (r: Option<String>)
    ensures
        (r is Some) == (field_str_of(*v, key@) is Some),
        r matches Some(s) ==> field_str_of(*v, key@) == Some(s@),
{
    match json_get(v, key) {
        Some(inner) => json_as_str(inner),
        None => None,
    }
}

/// Look an unsigned number field up on an object in one step.
pub fn json_get_u64(v: &serde_json::Value, key: &str) -> (r: Option<u64>)
    ensures
        r == field_u64_of(*v, key@),
{
    match json_get(v, key) {
        Some(inner) => json_as_u64(inner),
        None => None,
    }
}

/// Look a boolean field up on an object in one step.
pub fn json_get_bool(v: &serde_json::Value, key: &str) -> (r: Option<bool>)
    ensures
        r == field_bool_of(*v, key@),
{
    match json_get(v, key) {
        Some(inner) => json_as_bool(inner),
        None => None,
    }
}

} // verus!
