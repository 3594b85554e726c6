//! What this library reads of a `serde_json::Value`, and the calls into
//! `serde_json` through which it reads it.
//!
//! A `Value` is opaque to the prover. What can be read of it has a name
//! here, and the contract of each call into `serde_json` says which name its
//! result goes by, as the source of `serde_json` shows it. Those contracts
//! are taken on trust; what is built on them is proved.

use serde_json::Value;
use vstd::prelude::*;

verus! {

/// A JSON value as `serde_json` holds it. Its inside is not visible to the
/// prover; the functions below name what can be read of it.
#[verifier::external_type_specification]
#[verifier::external_body]
pub struct ExValue(serde_json::Value);

/// The text of a JSON string; `None` for a value that is no string.
pub uninterp spec fn json_text(v: Value) -> Option<Seq<char>>;

/// The elements of a JSON array, in order; `None` for a value that is no
/// array.
pub uninterp spec fn json_items(v: Value) -> Option<Seq<Value>>;

/// The member that a JSON object holds under `key`; `None` where it holds
/// none, or for a value that is no object.
pub uninterp spec fn json_member(v: Value, key: Seq<char>) -> Option<Value>;

/// Whether the value is a JSON object.
pub uninterp spec fn json_is_object(v: Value) -> bool;

/// The number that a JSON value holds, where it is an integer from 0 to
/// 2^64 - 1; `None` for any other value.
pub uninterp spec fn json_u64(v: Value) -> Option<u64>;

/// `Value::as_str` returns the string inside a `Value::String` and `None` for
/// every other variant.
pub assume_specification[ Value::as_str ](v: &Value) -> (r: Option<&str>)
    ensures
        match r {
            Some(s) => json_text(*v) == Some(s@),
            None => json_text(*v) is None,
        },
;

/// `Value::as_array` returns the vector inside a `Value::Array` and `None` for
/// every other variant.
pub assume_specification[ Value::as_array ](v: &Value) -> (r: Option<&Vec<Value>>)
    ensures
        match r {
            Some(items) => json_items(*v) == Some(items@),
            None => json_items(*v) is None,
        },
;

/// `Value::is_object` tells whether the value is a `Value::Object`.
pub assume_specification[ Value::is_object ](v: &Value) -> (r: bool)
    ensures
        r == json_is_object(*v),
;

/// `Value::as_u64` returns the integer inside a `Value::Number` where it fits
/// a `u64`, and `None` for every other value.
pub assume_specification[ Value::as_u64 ](v: &Value) -> (r: Option<u64>)
    ensures
        r == json_u64(*v),
;

/// `Value::get` with a string index: the member of an object under that key,
/// `None` where the object has no such key or the value is no object.
#[verifier::external_body]
pub(crate) fn member<'a>(v: &'a Value, key: &str) -> (r: Option<&'a Value>)
    ensures
        match r {
            Some(m) => json_member(*v, key@) == Some(*m),
            None => json_member(*v, key@) is None,
        },
{
    v.get(key)
}

/// The text of the string member of `v` under `key`, if `v` is an object that
/// holds a string there.
pub open spec fn text_member(v: Value, key: Seq<char>) -> Option<Seq<char>> {
    match json_member(v, key) {
        Some(m) => json_text(m),
        None => None,
    }
}

/// Reads the string member of `v` under `key`.
pub fn read_text(v: &Value, key: &str) -> (r: Option<String>)
    ensures
        r.deep_view() == text_member(*v, key@),
{
    match member(v, key) {
        Some(m) => match m.as_str() {
            Some(s) => Some(String::from_str(s)),
            None => None,
        },
        None => None,
    }
}

/// The JSON value that a text spells out; `None` for a text that is not
/// JSON.
pub uninterp spec fn json_parsed(text: Seq<char>) -> Option<Value>;

/// `serde_json::from_str` at the type `Value`. What it returns depends on
/// the text alone; an error of whatever kind becomes `None`.
#[verifier::external_body]
pub(crate) fn parse(text: &str) -> (r: Option<Value>)
    ensures
        r == json_parsed(text@),
{
    match serde_json::from_str::<Value>(text) {
        Ok(v) => Some(v),
        Err(_) => None,
    }
}

/// The clone of a `Value` is a value equal to it: `Clone` is derived for
/// `Value` and for all that it holds.
pub assume_specification[ <Value as Clone>::clone ](v: &Value) -> (r: Value)
    ensures
        r == *v,
;

/// The values that a text spells out as a JSON array.
pub open spec fn records_in(text: Seq<char>) -> Option<Seq<Value>> {
    match json_parsed(text) {
        Some(v) => json_items(v),
        None => None,
    }
}

/// The elements of the JSON array that a text spells out; `None` where it
/// spells out anything else.
pub fn parse_records(text: &str) -> (r: Option<Vec<Value>>)
    ensures
        match r {
            Some(records) => records_in(text@) == Some(records@),
            None => records_in(text@) is None,
        },
{
    let parsed = match parse(text) {
        Some(v) => v,
        None => {
            return None;
        },
    };
    let items = match parsed.as_array() {
        Some(items) => items,
        None => {
            return None;
        },
    };
    let mut out: Vec<Value> = Vec::new();
    let mut i: usize = 0;
    while i < items.len()
        invariant
            i <= items.len(),
            out@ == items@.take(i as int),
        decreases items.len() - i,
    {
        out.push(items[i].clone());
        proof {
            assert(out@ =~= items@.take(i + 1));
        }
        i += 1;
    }
    proof {
        assert(items@.take(items.len() as int) =~= items@);
    }
    Some(out)
}

/// The whole number that `v` holds under `key`, if it is an object that
/// holds one there.
pub open spec fn number_member(v: Value, key: Seq<char>) -> Option<u64> {
    match json_member(v, key) {
        Some(m) => json_u64(m),
        None => None,
    }
}

/// Reads the whole number that `v` holds under `key`.
pub fn read_number(v: &Value, key: &str) -> (r: Option<u64>)
    ensures
        r == number_member(*v, key@),
{
    match member(v, key) {
        Some(m) => m.as_u64(),
        None => None,
    }
}

} // verus!
