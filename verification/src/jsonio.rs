//! Trusted declarations over serde_json: the opaque JSON value tree, a
//! ghost model of what such a tree holds, and the accessors the response
//! walk uses.
//!
//! `node_of` names the tree a `serde_json::Value` holds, and `json_of`
//! names what `serde_json::from_str` returns for given text: both are
//! functions of their arguments alone, so the accessors' contracts can
//! speak of them, and callers can state exactly what they compute from a
//! response. Numbers are modelled by the one projection the library
//! reads: their value as an `i64`, absent when they have none.
use vstd::prelude::*;

verus! {

/// The ghost model of a JSON value.
pub ghost enum JsonNode {
    Null,
    Bool(bool),
    /// A number, as the `i64` it denotes when it denotes one.
    Num(Option<i64>),
    Text(Seq<char>),
    Arr(Seq<JsonNode>),
    Obj(Map<Seq<char>, JsonNode>),
}

/// The tree a parsed JSON value holds.
pub uninterp spec fn node_of(v: serde_json::Value) -> JsonNode;

/// What parsing JSON text yields: the tree it denotes, or nothing when
/// the text is not JSON serde_json accepts.
pub uninterp spec fn json_of(text: Seq<char>) -> Option<JsonNode>;

#[verifier::external_type_specification]
#[verifier::external_body]
pub struct ExJsonValue(serde_json::Value);

/// Parses JSON text into a value tree, or fails.
/// Relies on serde_json::from_str::<Value>, a function of the text alone.
#[verifier::external_body]
pub fn json_parse(text: &str) -> (r: Option<serde_json::Value>)
    ensures
        r matches Some(v) ==> json_of(text@) == Some(node_of(v)),
        r is None ==> json_of(text@) is None,
{
    serde_json::from_str::<serde_json::Value>(text).ok()
}

/// The value of a field of a JSON object; `None` when the value is not
/// an object or has no such field.
/// Relies on serde_json::Value::get with a string index.
#[verifier::external_body]
pub fn json_get<'a>(v: &'a serde_json::Value, key: &str) -> (r: Option<&'a serde_json::Value>)
    ensures
        match r {
            Some(w) => node_of(*v) matches JsonNode::Obj(obj) && obj.contains_key(key@) && node_of(
                *w,
            ) == obj[key@],
            None => node_of(*v) matches JsonNode::Obj(obj) ==> !obj.contains_key(key@),
        },
{
    v.get(key)
}

/// The number a JSON value holds, when it is a number with an i64 value.
/// Relies on serde_json::Value::as_i64.
#[verifier::external_body]
pub fn json_as_i64(v: &serde_json::Value) -> (r: Option<i64>)
    ensures
        r == (match node_of(*v) {
            JsonNode::Num(o) => o,
            _ => None,
        }),
{
    v.as_i64()
}

/// The text a JSON string value holds.
/// Relies on serde_json::Value::as_str.
#[verifier::external_body]
pub fn json_as_str<'a>(v: &'a serde_json::Value) -> (r: Option<&'a str>)
    ensures
        match r {
            Some(s) => node_of(*v) matches JsonNode::Text(t) && s@ == t,
            None => !(node_of(*v) is Text),
        },
{
    v.as_str()
}

/// The elements of a JSON array value.
/// Relies on serde_json::Value::as_array.
#[verifier::external_body]
pub fn json_as_array<'a>(v: &'a serde_json::Value) -> (r: Option<&'a Vec<serde_json::Value>>)
    ensures
        match r {
            Some(a) => node_of(*v) matches JsonNode::Arr(items) && a@.len() == items.len() && (
            forall|i: int| 0 <= i < a@.len() ==> node_of(a@[i]) == items[i]),
            None => !(node_of(*v) is Arr),
        },
{
    v.as_array()
}

/// Whether a JSON value is null.
/// Relies on serde_json::Value::is_null.
#[verifier::external_body]
pub fn json_is_null(v: &serde_json::Value) -> (r: bool)
    ensures
        r == (node_of(*v) is Null),
{
    v.is_null()
}

} // verus!
