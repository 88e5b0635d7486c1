//! JSON text, written by the crate `serde_json`.
use crate::error::GenError;
use vstd::prelude::*;

verus! {

/// The error of `serde_json`.
#[verifier::external_type_specification]
#[verifier::external_body]
pub struct ExJsonError(serde_json::Error);

/// A JSON value of `serde_json`.
#[verifier::external_type_specification]
#[verifier::external_body]
pub struct ExJsonValue(serde_json::Value);

/// The object type of `serde_json`: a map from keys to values, ordered by key.
#[verifier::external_type_specification]
#[verifier::external_body]
#[verifier::reject_recursive_types(K)]
#[verifier::reject_recursive_types(V)]
pub struct ExJsonMap<K, V>(serde_json::Map<K, V>);

/// An object of `serde_json` with string keys.
pub(crate) type JsonMap = serde_json::Map<String, serde_json::Value>;

/// The JSON text of a string, as `serde_json` writes it: quoted and escaped.
pub uninterp spec fn json_string_text(s: Seq<char>) -> Seq<char>;

/// The entries of an object whose values are strings: the string under each key.
pub uninterp spec fn json_object_entries(m: serde_json::Map<String, serde_json::Value>) -> Map<
    Seq<char>,
    Seq<char>,
>;

/// The pretty-printed JSON text of an object with the given entries, all of them
/// strings, as `serde_json` writes it.
pub uninterp spec fn json_object_text(entries: Map<Seq<char>, Seq<char>>) -> Seq<char>;

/// The pretty-printed JSON text of a string.
///
/// Calls `serde_json::to_string_pretty` on the string. The text is written into a
/// byte vector, and an error of that writer is the only way in which writing a string
/// fails; a byte vector has none. So the contract claims that the call succeeds, and
/// it names the text, which depends on the argument alone.
#[verifier::external_body]
pub(crate) fn json_string(s: &str) -> (r: Result<String, serde_json::Error>)
    ensures
        r is Ok,
        r matches Ok(t) ==> t@ == json_string_text(s@),
{
    serde_json::to_string_pretty(s)
}

/// An object without entries.
///
/// Calls `serde_json::Map::new`, which makes an empty map.
#[verifier::external_body]
pub(crate) fn json_map_new() -> (r: JsonMap)
    ensures
        json_object_entries(r) == (Map::<Seq<char>, Seq<char>>::empty()),
{
    serde_json::Map::new()
}

/// Puts the string `value` under `key`, in place of what was there.
///
/// Calls `serde_json::Map::insert` with the key and the value as a JSON string. The
/// map then holds the value under the key and is otherwise as before.
#[verifier::external_body]
pub(crate) fn json_map_insert(m: &mut JsonMap, key: &str, value: &str)
    ensures
        json_object_entries(*final(m)) == json_object_entries(*old(m)).insert(key@, value@),
{
    m.insert(key.to_string(), serde_json::Value::String(value.to_string()));
}

/// The pretty-printed JSON text of an object.
///
/// Calls `serde_json::to_string_pretty` on the map. The map is ordered by key, so the
/// text depends on the entries alone, and the contract names it. Keys and values are
/// written into a byte vector, and an error of that writer is the only way in which
/// writing them fails; a byte vector has none. So the contract claims that the call
/// succeeds.
#[verifier::external_body]
pub(crate) fn json_map_pretty(m: &JsonMap) -> (r: Result<String, serde_json::Error>)
    ensures
        r is Ok,
        r matches Ok(t) ==> t@ == json_object_text(json_object_entries(*m)),
{
    serde_json::to_string_pretty(m)
}

/// A JSON object whose values are all strings. It is made empty and filled through
/// `insert`, so it never holds a value of another kind.
pub struct StringObject {
    map: serde_json::Map<String, serde_json::Value>,
}

impl StringObject {
    /// The string under each key.
    pub closed spec fn entries(&self) -> Map<Seq<char>, Seq<char>> {
        json_object_entries(self.map)
    }

    /// An object without entries.
    pub fn new() -> (r: StringObject)
        ensures
            r.entries() == Map::<Seq<char>, Seq<char>>::empty(),
    {
        StringObject { map: json_map_new() }
    }

    /// Puts `value` under `key`, in place of what was there.
    pub fn insert(&mut self, key: &str, value: &str)
        ensures
            final(self).entries() == old(self).entries().insert(key@, value@),
    {
        json_map_insert(&mut self.map, key, value);
    }

    /// The pretty-printed JSON text of the object. It does not fail.
    pub fn to_pretty(&self) -> (r: Result<String, GenError>)
        ensures
            r matches Ok(t) && t@ == json_object_text(self.entries()),
    {
        match json_map_pretty(&self.map) {
            Ok(t) => Ok(t),
            Err(_) => Err(GenError::SerializationFailure),
        }
    }
}

/// The pretty-printed JSON text of a string. It does not fail.
pub fn string_to_pretty(s: &str) -> (r: Result<String, GenError>)
    ensures
        r matches Ok(t) && t@ == json_string_text(s@),
{
    match json_string(s) {
        Ok(t) => Ok(t),
        Err(_) => Err(GenError::SerializationFailure),
    }
}

} // verus!
