//! JSON documents (serde_json's `Value`): what the library asks of them.

use vstd::prelude::*;

verus! {

/// A JSON document (serde_json's `Value`), carried as an opaque value.
#[verifier::external_type_specification]
#[verifier::external_body]
pub struct ExJsonValue(serde_json::Value);

/// Trusted: `Value`'s `Clone` is derived, so a clone is the same document.
pub assume_specification[ <serde_json::Value as Clone>::clone ](v: &serde_json::Value) -> (r: serde_json::Value)
    ensures
        r == *v,
;

/// The texts of a list of strings.
pub open spec fn string_views(items: Seq<String>) -> Seq<Seq<char>> {
    items.map_values(|s: String| s@)
}

/// Whether two documents are equal, as `Value`'s `PartialEq` decides.
pub uninterp spec fn json_equal(a: serde_json::Value, b: serde_json::Value) -> bool;

/// The text of a document that is a JSON string; none otherwise.
pub uninterp spec fn json_text(v: serde_json::Value) -> Option<Seq<char>>;

/// The JSON array of the given strings.
pub uninterp spec fn json_string_array(items: Seq<Seq<char>>) -> serde_json::Value;

/// The member `field` of a document that is an object holding it; JSON
/// null otherwise.
pub uninterp spec fn json_member_or_null(v: serde_json::Value, field: Seq<char>) -> serde_json::Value;

/// The members of a document that is an object, as (name, value), in the
/// object's iteration order; none for any other document.
pub uninterp spec fn json_object_members(v: serde_json::Value) -> Seq<(Seq<char>, serde_json::Value)>;

/// A member as (name, value).
pub open spec fn member_view() -> spec_fn((String, serde_json::Value)) -> (Seq<char>, serde_json::Value) {
    |e: (String, serde_json::Value)| (e.0@, e.1)
}

/// Trusted: the members of `Value::as_object`, each name and value cloned,
/// in the map's iteration order; none when the document is not an object.
/// The contract names them.
#[verifier::external_body]
pub(crate) fn json_members(v: &serde_json::Value) -> (r: Vec<(String, serde_json::Value)>)
    ensures
        r@.map_values(member_view()) == json_object_members(*v),
{
    match v.as_object() {
        Some(obj) => obj.iter().map(|(k, x)| (k.clone(), x.clone())).collect(),
        None => Vec::new(),
    }
}

/// The integer of a document that is a JSON number representable as an
/// `i64`; none otherwise.
pub uninterp spec fn json_int(v: serde_json::Value) -> Option<i64>;

/// The items of a document that is a JSON array; none otherwise.
pub uninterp spec fn json_items(v: serde_json::Value) -> Option<Seq<serde_json::Value>>;

/// Trusted: `Value::as_i64`; the contract names its result.
#[verifier::external_body]
pub(crate) fn json_as_i64(v: &serde_json::Value) -> (r: Option<i64>)
    ensures
        r == json_int(*v),
{
    v.as_i64()
}

/// Trusted: `Value::as_array`, the items cloned; the contract names them.
#[verifier::external_body]
pub(crate) fn json_as_array(v: &serde_json::Value) -> (r: Option<Vec<serde_json::Value>>)
    ensures
        match r {
            Some(items) => json_items(*v) == Some(items@),
            None => json_items(*v) is None,
        },
{
    match v.as_array() {
        Some(items) => Some(items.clone()),
        None => None,
    }
}

/// Trusted: an empty JSON object, `Value::Object(Map::new())`: it has no
/// members and is not a JSON string.
#[verifier::external_body]
pub(crate) fn empty_json_object() -> (r: serde_json::Value)
    ensures
        json_object_members(r).len() == 0,
        json_text(r) is None,
{
    serde_json::Value::Object(serde_json::Map::new())
}

/// Trusted: `PartialEq::eq` on two `Value`s; the contract names it.
#[verifier::external_body]
pub(crate) fn json_values_equal(a: &serde_json::Value, b: &serde_json::Value) -> (r: bool)
    ensures
        r == json_equal(*a, *b),
{
    a == b
}

/// Trusted: `Value::as_str`, the text of a JSON string, copied out; the
/// contract names it.
#[verifier::external_body]
pub(crate) fn json_as_text(v: &serde_json::Value) -> (r: Option<String>)
    ensures
        match r {
            Some(s) => json_text(*v) == Some(s@),
            None => json_text(*v) is None,
        },
{
    match v.as_str() {
        Some(s) => Some(s.to_string()),
        None => None,
    }
}

/// Trusted: `Value::from` on a vector of strings, which builds a JSON
/// array of JSON strings; the contract names it.
#[verifier::external_body]
pub(crate) fn json_from_strings(items: &Vec<String>) -> (r: serde_json::Value)
    ensures
        r == json_string_array(string_views(items@)),
{
    serde_json::Value::from(items.clone())
}

/// Trusted: `Value::get` with a field name, which finds the member of an
/// object (and nothing in any other document), cloned, or JSON null when
/// there is none; the contract names it.
#[verifier::external_body]
pub(crate) fn json_member(v: &serde_json::Value, field: &str) -> (r: serde_json::Value)
    ensures
        r == json_member_or_null(*v, field@),
{
    v.get(field).cloned().unwrap_or(serde_json::Value::Null)
}

} // verus!
