//! JSON documents as `serde_json` holds them, seen through a mathematical
//! model of what they contain.

use vstd::prelude::*;

verus! {

/// `serde_json::Value`, a JSON document, opaque but for `json_doc`.
#[verifier::external_type_specification]
#[verifier::external_body]
pub struct ExJsonValue(serde_json::Value);

/// `serde_json::Map`, the members of a JSON object, opaque but for
/// `json_members`.
#[verifier::external_type_specification]
#[verifier::external_body]
#[verifier::reject_recursive_types(K)]
#[verifier::reject_recursive_types(V)]
pub struct ExJsonMap<K, V>(serde_json::Map<K, V>);

/// `serde_json::Error`, carried from the serializer to where it is mapped.
#[verifier::external_type_specification]
#[verifier::external_body]
pub struct ExJsonError(serde_json::Error);

/// The members of a JSON object under construction.
pub type JsonMembers = serde_json::Map<String, serde_json::Value>;

/// What a JSON document contains.
pub enum JsonDoc {
    /// A string.
    Text(Seq<char>),
    /// A whole number.
    Number(int),
    /// An array, by its elements in order.
    List(Seq<JsonDoc>),
    /// An object, by its members.
    Object(Map<Seq<char>, JsonDoc>),
    /// `null`, a boolean or a number that is not whole, by its JSON text.
    Literal(Seq<char>),
}

/// What a `serde_json::Value` contains.
pub uninterp spec fn json_doc(value: serde_json::Value) -> JsonDoc;

/// The members that a `serde_json::Map` holds, by key.
pub uninterp spec fn json_members(members: JsonMembers) -> Map<Seq<char>, JsonDoc>;

/// The pretty-printed text that `serde_json` writes for a document, or
/// `None` where its serializer fails on the document.
pub uninterp spec fn pretty_text(doc: JsonDoc) -> Option<Seq<char>>;

/// `serde_json::Value::from` on a string slice: the JSON string of the same
/// characters.
#[verifier::external_body]
pub(crate) fn json_text(text: &str) -> (value: serde_json::Value)
    ensures
        json_doc(value) == JsonDoc::Text(text@),
{
    serde_json::Value::from(text)
}

/// `serde_json::Value::from` on a `u64`: the JSON number of the same value.
#[verifier::external_body]
pub(crate) fn json_number(n: u64) -> (value: serde_json::Value)
    ensures
        json_doc(value) == JsonDoc::Number(n as int),
{
    serde_json::Value::from(n)
}

/// `serde_json::Value::from` on a vector of values: the JSON array of these
/// values in the same order.
#[verifier::external_body]
pub(crate) fn json_list(items: Vec<serde_json::Value>) -> (value: serde_json::Value)
    ensures
        json_doc(value) == JsonDoc::List(items@.map_values(|v: serde_json::Value| json_doc(v))),
{
    serde_json::Value::from(items)
}

/// `serde_json::Map::new`: a map that holds no member.
#[verifier::external_body]
pub(crate) fn members_new() -> (members: JsonMembers)
    ensures
        json_members(members) == (Map::<Seq<char>, JsonDoc>::empty()),
{
    serde_json::Map::new()
}

/// `serde_json::Map::insert`: the map holds the value under the key
/// afterwards, in place of what it held under that key before, and its other
/// members as before.
#[verifier::external_body]
pub(crate) fn members_insert(members: &mut JsonMembers, key: &str, value: serde_json::Value)
    ensures
        json_members(*final(members)) == json_members(*old(members)).insert(key@, json_doc(value)),
{
    members.insert(key.to_owned(), value);
}

/// `serde_json::Value::from` on a map: the JSON object of the map's members.
#[verifier::external_body]
pub(crate) fn json_object(members: JsonMembers) -> (value: serde_json::Value)
    ensures
        json_doc(value) == JsonDoc::Object(json_members(members)),
{
    serde_json::Value::from(members)
}

/// `serde_json::to_string_pretty` on a value: whether it gives a text or
/// fails, and the text it gives, are a function of what the value contains.
/// It writes into memory of its own, and the members of an object are kept
/// sorted by key, so the order of their insertion leaves no trace in it.
/// Nothing is claimed of when it fails.
#[verifier::external_body]
pub(crate) fn to_pretty(value: &serde_json::Value) -> (text: Result<String, serde_json::Error>)
    ensures
        match text {
            Ok(t) => pretty_text(json_doc(*value)) == Some(t@),
            Err(_) => pretty_text(json_doc(*value)) is None,
        },
{
    serde_json::to_string_pretty(value)
}

} // verus!
