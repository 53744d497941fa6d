//! JSON values, as serde_json holds them.

use vstd::prelude::*;
use vstd::string::*;

use crate::text;

verus! {

/// A JSON value, from the crate `serde_json`.
#[verifier::external_type_specification]
#[verifier::external_body]
pub struct ExJsonValue(serde_json::Value);

/// What a JSON value holds.
pub enum Json {
    Null,
    Flag(bool),
    /// A whole number that is not negative.
    Count(nat),
    Text(Seq<char>),
    List(Seq<Json>),
    Object(Map<Seq<char>, Json>),
    /// Any other number.
    Other,
}

/// What a `serde_json::Value` holds.
pub uninterp spec fn json_value(v: serde_json::Value) -> Json;

/// The list of texts.
pub open spec fn json_texts(ts: Seq<Seq<char>>) -> Json {
    Json::List(Seq::new(ts.len(), |i: int| Json::Text(ts[i])))
}

/// `serde_json::Value::get` with a string: the value under a key of an object, and
/// nothing of anything else.
#[verifier::external_body]
pub(crate) fn get<'a>(v: &'a serde_json::Value, key: &str) -> (r: Option<&'a serde_json::Value>)
    ensures
        match json_value(*v) {
            Json::Object(m) => if m.dom().contains(key@) {
                r matches Some(x) && json_value(*x) == m[key@]
            } else {
                r is None
            },
            _ => r is None,
        },
{
    v.get(key)
}

/// `serde_json::Value::is_null`.
#[verifier::external_body]
pub(crate) fn is_null(v: &serde_json::Value) -> (b: bool)
    ensures
        b == (json_value(*v) is Null),
{
    v.is_null()
}

/// `serde_json::Value::from(usize)`: the number.
#[verifier::external_body]
pub(crate) fn number(n: usize) -> (v: serde_json::Value)
    ensures
        json_value(v) == Json::Count(n as nat),
{
    serde_json::Value::from(n)
}

/// `serde_json::Value::from(bool)`.
#[verifier::external_body]
pub(crate) fn flag(b: bool) -> (v: serde_json::Value)
    ensures
        json_value(v) == Json::Flag(b),
{
    serde_json::Value::from(b)
}

/// `serde_json::Value::from(String)`.
#[verifier::external_body]
pub(crate) fn string(s: String) -> (v: serde_json::Value)
    ensures
        json_value(v) == Json::Text(s@),
{
    serde_json::Value::from(s)
}

/// `serde_json::Value::from(Vec<String>)`: the list of the strings.
#[verifier::external_body]
pub(crate) fn strings(l: Vec<String>) -> (v: serde_json::Value)
    ensures
        json_value(v) == json_texts(text::texts(l@)),
{
    serde_json::Value::from(l)
}

/// A JSON object, from the crate `serde_json`.
#[verifier::external_type_specification]
#[verifier::external_body]
#[verifier::reject_recursive_types(K)]
#[verifier::reject_recursive_types(V)]
pub struct ExJsonMap<K, V>(serde_json::Map<K, V>);

/// What a `serde_json::Map` holds.
pub uninterp spec fn json_map(m: serde_json::Map<String, serde_json::Value>) -> Map<
    Seq<char>,
    Json,
>;

/// An object's entries when it has none.
pub open spec fn no_entries() -> Map<Seq<char>, Json> {
    Map::empty()
}

/// `serde_json::Map::new`: an object without entries.
#[verifier::external_body]
pub(crate) fn object() -> (m: serde_json::Map<String, serde_json::Value>)
    ensures
        json_map(m) == no_entries(),
{
    serde_json::Map::new()
}

/// `serde_json::Map::insert`: the value stands under the key, whatever stood there
/// before; the other entries stay.
#[verifier::external_body]
pub(crate) fn insert(
    m: &mut serde_json::Map<String, serde_json::Value>,
    key: String,
    v: serde_json::Value,
)
    ensures
        json_map(*final(m)) == json_map(*old(m)).insert(key@, json_value(v)),
{
    m.insert(key, v);
}

/// `serde_json::Value::from(serde_json::Map)`: the object as a value.
#[verifier::external_body]
pub(crate) fn whole(m: serde_json::Map<String, serde_json::Value>) -> (v: serde_json::Value)
    ensures
        json_value(v) == Json::Object(json_map(m)),
{
    serde_json::Value::from(m)
}

} // verus!
