//! JSON, as `serde_json` reads and writes it.
//!
//! Everything here is trusted: the contracts say what `serde_json` does and
//! are not proved. A value is known by the compact text that it is written
//! as, an object by its keys and the texts of their values.

use crate::text::{spec_signed_decimal, spec_utf8};
use vstd::prelude::*;

verus! {

/// `serde_json::Value`, a JSON value. Nothing is known of what is inside
/// one but through the functions below.
#[verifier::external_type_specification]
#[verifier::external_body]
pub struct ExValue(serde_json::Value);

/// `serde_json::Map`, a JSON object. Nothing is known of what is inside one
/// but through the functions below.
#[verifier::external_type_specification]
#[verifier::external_body]
#[verifier::reject_recursive_types(K)]
#[verifier::reject_recursive_types(V)]
pub struct ExObject<K, V>(serde_json::Map<K, V>);

/// What a value holds: the compact JSON text that `serde_json` writes it as.
pub uninterp spec fn spec_value_text(value: serde_json::Value) -> Seq<u8>;

/// What an object holds: for each key, the compact JSON text of its value.
pub uninterp spec fn spec_object_entries(object: serde_json::Map<String, serde_json::Value>) -> Map<
    Seq<char>,
    Seq<u8>,
>;

/// The object that `serde_json::from_str` reads `text` as, if it reads it as
/// one.
pub uninterp spec fn spec_json_object(text: Seq<char>) -> Option<Map<Seq<char>, Seq<u8>>>;

/// The compact JSON text that `serde_json` writes an object with these
/// entries as.
pub uninterp spec fn spec_object_text(entries: Map<Seq<char>, Seq<u8>>) -> Seq<u8>;

/// The string that a value with this compact text is, if it is a string.
pub uninterp spec fn spec_json_string(text: Seq<u8>) -> Option<Seq<char>>;

/// The integer that a value with this compact text is, if it is a number
/// that `i64` holds exactly.
pub uninterp spec fn spec_json_integer(text: Seq<u8>) -> Option<i64>;

/// `serde_json::from_str` at `Map<String, Value>`: the object that `text`
/// spells. Claims that the outcome depends on `text` alone; which texts are
/// objects, and what they hold, is left to `serde_json`.
#[verifier::external_body]
pub(crate) fn parse_object(text: &str) -> (parsed: Option<
    serde_json::Map<String, serde_json::Value>,
>)
    ensures
        match parsed {
            Some(object) => spec_json_object(text@) == Some(spec_object_entries(object)),
            None => spec_json_object(text@) is None,
        },
{
    serde_json::from_str::<serde_json::Map<String, serde_json::Value>>(text).ok()
}

/// `serde_json::Map::remove`: takes `key` out of the object and hands its
/// value out, if the object had the key. Claims that no other entry changes.
#[verifier::external_body]
pub(crate) fn object_remove(
    object: &mut serde_json::Map<String, serde_json::Value>,
    key: &str,
) -> (removed: Option<serde_json::Value>)
    ensures
        spec_object_entries(*final(object)) == spec_object_entries(*old(object)).remove(key@),
        match removed {
            Some(value) => spec_object_entries(*old(object)).dom().contains(key@)
                && spec_value_text(value) == spec_object_entries(*old(object))[key@],
            None => !spec_object_entries(*old(object)).dom().contains(key@),
        },
{
    object.remove(key)
}

/// `serde_json::Map::insert`: puts `value` under `key`, in place of what was
/// there. Claims that no other entry changes.
#[verifier::external_body]
pub(crate) fn object_insert(
    object: &mut serde_json::Map<String, serde_json::Value>,
    key: String,
    value: serde_json::Value,
)
    ensures
        spec_object_entries(*final(object)) == spec_object_entries(*old(object)).insert(
            key@,
            spec_value_text(value),
        ),
{
    object.insert(key, value);
}

/// `serde_json::Value::as_str`: the string that the value is, if it is one.
/// Claims that the outcome depends on the value's text alone.
#[verifier::external_body]
pub(crate) fn value_as_str(value: &serde_json::Value) -> (string: Option<String>)
    ensures
        match string {
            Some(s) => spec_json_string(spec_value_text(*value)) == Some(s@),
            None => spec_json_string(spec_value_text(*value)) is None,
        },
{
    value.as_str().map(String::from)
}

/// `serde_json::Value::as_i64`: the integer that the value is, if it is one
/// that `i64` holds. Claims that the outcome depends on the value's text
/// alone, and that the text of a value that is such an integer is the
/// integer in decimal, as `serde_json` writes integers.
#[verifier::external_body]
pub(crate) fn value_as_i64(value: &serde_json::Value) -> (integer: Option<i64>)
    ensures
        integer == spec_json_integer(spec_value_text(*value)),
        integer matches Some(n) ==> spec_value_text(*value) == spec_utf8(
            spec_signed_decimal(n as int),
        ),
{
    value.as_i64()
}

/// `serde_json::Value`'s `Display`, which writes the compact text of the
/// value; the bytes of that text.
#[verifier::external_body]
pub(crate) fn value_text(value: &serde_json::Value) -> (text: Vec<u8>)
    ensures
        text@ == spec_value_text(*value),
{
    value.to_string().into_bytes()
}

/// `serde_json::to_vec` at `Map<String, Value>`: the compact text of the
/// object. Claims that the text depends on the entries alone, and that
/// writing an object whose keys are strings does not fail.
#[verifier::external_body]
pub(crate) fn object_text(object: &serde_json::Map<String, serde_json::Value>) -> (text: Vec<u8>)
    ensures
        text@ == spec_object_text(spec_object_entries(*object)),
{
    serde_json::to_vec(object).unwrap_or_default()
}

} // verus!
