//! JSON values of `serde_json`, by what they hold.

use serde_json::Value;
use vstd::prelude::*;

verus! {

/// A JSON document.
pub enum Json {
    Null,
    Bool(bool),
    /// A whole number; the value says nothing where the number is a fraction.
    Number(int),
    Text(Seq<char>),
    List(Seq<Json>),
    Object(Map<Seq<char>, Json>),
}

/// The member of an object under a name; `None` for anything but an object.
pub open spec fn json_member(j: Json, name: Seq<char>) -> Option<Json> {
    match j {
        Json::Object(members) => if members.contains_key(name) {
            Some(members[name])
        } else {
            None
        },
        _ => None,
    }
}

/// The text that a document is; `None` for anything but a text.
pub open spec fn json_text(j: Json) -> Option<Seq<char>> {
    match j {
        Json::Text(text) => Some(text),
        _ => None,
    }
}

/// The truth value that a document is; `None` for anything but a truth value.
pub open spec fn json_flag(j: Json) -> Option<bool> {
    match j {
        Json::Bool(flag) => Some(flag),
        _ => None,
    }
}

/// The text under a name; `None` where there is none.
pub open spec fn text_member(j: Json, name: Seq<char>) -> Option<Seq<char>> {
    match json_member(j, name) {
        Some(m) => json_text(m),
        None => None,
    }
}

/// The truth value under a name; `None` where there is none.
pub open spec fn flag_member(j: Json, name: Seq<char>) -> Option<bool> {
    match json_member(j, name) {
        Some(m) => json_flag(m),
        None => None,
    }
}

/// The view of an optional text.
pub open spec fn opt_str(s: Option<&str>) -> Option<Seq<char>> {
    match s {
        Some(t) => Some(t@),
        None => None,
    }
}

/// A JSON value of `serde_json`.
#[verifier::external_type_specification]
#[verifier::external_body]
pub struct ExValue(serde_json::Value);

/// The members of a JSON object of `serde_json`.
#[verifier::external_type_specification]
#[verifier::external_body]
#[verifier::reject_recursive_types(K)]
#[verifier::reject_recursive_types(V)]
pub struct ExMembers<K, V>(serde_json::Map<K, V>);

/// The document that a value holds.
pub uninterp spec fn json_of(v: Value) -> Json;

/// The documents that a collection of members holds, by name.
pub uninterp spec fn members_of(m: serde_json::Map<String, Value>) -> Map<Seq<char>, Json>;

/// `Value::get` with a name looks it up among the members of an object, and gives `None` for any
/// other value.
#[verifier::external_body]
fn member<'a>(v: &'a Value, name: &str) -> (found: Option<&'a Value>)
    ensures
        found is Some <==> json_member(json_of(*v), name@) is Some,
        found matches Some(m) ==> json_member(json_of(*v), name@) == Some(json_of(*m)),
{
    v.get(name)
}

/// `Value::as_str` gives the text of a text, and `None` for any other value.
#[verifier::external_body]
fn as_text(v: &Value) -> (text: Option<&str>)
    ensures
        opt_str(text) == json_text(json_of(*v)),
{
    v.as_str()
}

/// `Value::as_bool` gives the truth value that a value is, and `None` for any other value.
#[verifier::external_body]
fn as_flag(v: &Value) -> (flag: Option<bool>)
    ensures
        flag == json_flag(json_of(*v)),
{
    v.as_bool()
}

/// `Value::String` makes a text.
#[verifier::external_body]
fn text_value(text: String) -> (v: Value)
    ensures
        json_of(v) == Json::Text(text@),
{
    Value::String(text)
}

/// `Value::from` makes a number out of an integer.
#[verifier::external_body]
pub(crate) fn number_value(n: u64) -> (v: Value)
    ensures
        json_of(v) == Json::Number(n as int),
{
    Value::from(n)
}

/// `Value::Array` makes a list of the given values, in their order.
#[verifier::external_body]
pub(crate) fn list_value(items: Vec<Value>) -> (v: Value)
    ensures
        json_of(v) == Json::List(items@.map_values(|item: Value| json_of(item))),
{
    Value::Array(items)
}

/// `Map::new` makes a collection without members.
#[verifier::external_body]
pub(crate) fn no_members() -> (m: serde_json::Map<String, Value>)
    ensures
        (members_of(m) == Map::<Seq<char>, Json>::empty()),
{
    serde_json::Map::new()
}

/// `Map::insert` puts a value under a name, in place of what was there.
#[verifier::external_body]
fn insert_member(m: &mut serde_json::Map<String, Value>, name: String, v: Value)
    ensures
        members_of(*final(m)) == members_of(*old(m)).insert(name@, json_of(v)),
{
    m.insert(name, v);
}

/// `Value::Object` makes an object of the given members.
#[verifier::external_body]
pub(crate) fn object_value(m: serde_json::Map<String, Value>) -> (v: Value)
    ensures
        json_of(v) == Json::Object(members_of(m)),
{
    Value::Object(m)
}

/// The text under a name.
pub fn text_at<'a>(v: &'a Value, name: &str) -> (text: Option<&'a str>)
    ensures
        opt_str(text) == text_member(json_of(*v), name@),
{
    match member(v, name) {
        Some(m) => as_text(m),
        None => None,
    }
}

/// The truth value under a name.
pub fn flag_at(v: &Value, name: &str) -> (flag: Option<bool>)
    ensures
        flag == flag_member(json_of(*v), name@),
{
    match member(v, name) {
        Some(m) => as_flag(m),
        None => None,
    }
}

/// A text.
pub fn text(s: &str) -> (v: Value)
    ensures
        json_of(v) == Json::Text(s@),
{
    text_value(s.to_string())
}

/// Puts a value under a name.
pub fn put(m: &mut serde_json::Map<String, Value>, name: &str, v: Value)
    ensures
        members_of(*final(m)) == members_of(*old(m)).insert(name@, json_of(v)),
{
    insert_member(m, name.to_string(), v)
}

} // verus!
