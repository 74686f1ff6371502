//! Reading a JSON document: the text of a string value, the members of an
//! object, and the member of an object that has a given key.
//!
//! serde_json parses and holds the document. What this module states of a
//! value it states over three names: the value that a run of bytes parses to,
//! the text of a value, and the members of a value.

use serde_json::Value;
use vstd::prelude::*;

verus! {

#[verifier::external_type_specification]
#[verifier::external_body]
pub struct ExValue(serde_json::Value);

/// The value that serde_json reads from `bytes`; `None` where they are not
/// one JSON value.
pub uninterp spec fn parsed_json(bytes: Seq<u8>) -> Option<Value>;

/// The text of a value that is a JSON string; `None` for any other value.
pub uninterp spec fn json_text(value: Value) -> Option<Seq<char>>;

/// The members of a value that is a JSON object, each with its key, in the
/// order in which serde_json walks them; `None` for any other value.
pub uninterp spec fn json_members(value: Value) -> Option<Seq<(Seq<char>, Value)>>;

/// The value of the first of `members` whose key is `key`.
pub open spec fn first_member(members: Seq<(Seq<char>, Value)>, key: Seq<char>) -> Option<Value>
    decreases members.len(),
{
    if members.len() == 0 {
        None
    } else if members[0].0 == key {
        Some(members[0].1)
    } else {
        first_member(members.drop_first(), key)
    }
}

/// The member of an object that has the key `key`; `None` where the value is
/// no object or has no such member.
pub open spec fn json_member(value: Value, key: Seq<char>) -> Option<Value> {
    match json_members(value) {
        Some(members) => first_member(members, key),
        None => None,
    }
}

/// The member with the key `key` of a value that may be missing.
pub open spec fn member_of(value: Option<Value>, key: Seq<char>) -> Option<Value> {
    match value {
        Some(v) => json_member(v, key),
        None => None,
    }
}

/// The text of a value that may be missing.
pub open spec fn text_of(value: Option<Value>) -> Option<Seq<char>> {
    match value {
        Some(v) => json_text(v),
        None => None,
    }
}

/// A borrowed string that may be missing, as a mathematical value.
pub open spec fn str_view(text: Option<&str>) -> Option<Seq<char>> {
    match text {
        Some(t) => Some(t@),
        None => None,
    }
}

/// A borrowed value that may be missing, as a mathematical value.
pub open spec fn value_view(value: Option<&Value>) -> Option<Value> {
    match value {
        Some(v) => Some(*v),
        None => None,
    }
}

/// A list of borrowed members, as a mathematical value.
pub open spec fn members_view(members: Seq<(&String, &Value)>) -> Seq<(Seq<char>, Value)> {
    Seq::new(members.len(), |i: int| (members[i].0@, *members[i].1))
}

/// Calls `serde_json::from_slice` for a `Value`. Trusted: what comes back
/// depends on the bytes alone, and an error comes back as `None`.
#[verifier::external_body]
pub(crate) fn parse_value(bytes: &[u8]) -> (r: Option<Value>)
    ensures
        r == parsed_json(bytes@),
{
    serde_json::from_slice(bytes).ok()
}

/// Calls `serde_json::Value::as_str`. Trusted: the result is the text of the
/// value, as [`json_text`] names it.
#[verifier::external_body]
pub(crate) fn value_text<'a>(value: &'a Value) -> (r: Option<&'a str>)
    ensures
        str_view(r) == json_text(*value),
{
    value.as_str()
}

/// Calls `serde_json::Value::as_object` and walks the map it gives with
/// `Map::iter`. Trusted: the result holds the members of the value, as
/// [`json_members`] names them, in the same order.
#[verifier::external_body]
pub(crate) fn value_members<'a>(value: &'a Value) -> (r: Option<Vec<(&'a String, &'a Value)>>)
    ensures
        match r {
            Some(members) => json_members(*value) == Some(members_view(members@)),
            None => json_members(*value) is None,
        },
{
    value.as_object().map(|members| members.iter().collect())
}

/// Calls `serde_json::Value::get` with a string key. Trusted: the result is
/// the member of an object that has this key, and `None` where the value is
/// no object or no member has the key. An object of serde_json holds each key
/// once, so that member is also the first one with the key.
#[verifier::external_body]
pub(crate) fn value_member<'a>(value: &'a Value, key: &str) -> (r: Option<&'a Value>)
    ensures
        value_view(r) == json_member(*value, key@),
{
    value.get(key)
}

/// The member with the key `key` of a value that may be missing.
pub(crate) fn member_in<'a>(value: Option<&'a Value>, key: &str) -> (r: Option<&'a Value>)
    ensures
        value_view(r) == member_of(value_view(value), key@),
{
    match value {
        Some(v) => value_member(v, key),
        None => None,
    }
}

/// The text of a value that may be missing.
pub(crate) fn text_in<'a>(value: Option<&'a Value>) -> (r: Option<&'a str>)
    ensures
        str_view(r) == text_of(value_view(value)),
{
    match value {
        Some(v) => value_text(v),
        None => None,
    }
}

} // verus!
