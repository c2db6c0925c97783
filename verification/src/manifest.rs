//! Reading dependency tables out of `package.json` and `Cargo.toml` texts.
//! Parsed documents are values of the parsing crates, opaque here: each step the
//! library takes into them (parse, member, object or table, key) has a name for its result.
use vstd::prelude::*;

verus! {

/// `serde_json::Value`, opaque here.
#[verifier::external_type_specification]
#[verifier::external_body]
pub struct ExJsonValue(serde_json::Value);

/// `serde_json::Map`, opaque here; its keys are named by `json_object_keys`.
#[verifier::external_type_specification]
#[verifier::external_body]
#[verifier::reject_recursive_types(K)]
#[verifier::reject_recursive_types(V)]
pub struct ExJsonMap<K, V>(serde_json::Map<K, V>);

/// `toml::Value`, opaque here.
#[verifier::external_type_specification]
#[verifier::external_body]
pub struct ExTomlValue(toml::Value);

/// `toml::map::Map`, opaque here; its keys are named by `toml_table_keys`.
#[verifier::external_type_specification]
#[verifier::external_body]
#[verifier::reject_recursive_types(K)]
#[verifier::reject_recursive_types(V)]
pub struct ExTomlMap<K, V>(toml::map::Map<K, V>);

/// What `serde_json::from_str::<serde_json::Value>` yields for a text: the document,
/// or `None` when the text is not JSON.
pub uninterp spec fn json_document(text: Seq<char>) -> Option<serde_json::Value>;

/// What `serde_json::Value::get` yields for a string key: the member of an object.
pub uninterp spec fn json_get(v: serde_json::Value, key: Seq<char>) -> Option<serde_json::Value>;

/// What `serde_json::Value::as_object` yields: the value as an object, if it is one.
pub uninterp spec fn json_object(v: serde_json::Value) -> Option<serde_json::Map<String, serde_json::Value>>;

/// The keys of a JSON object.
pub uninterp spec fn json_object_keys(m: serde_json::Map<String, serde_json::Value>) -> Set<Seq<char>>;

/// What `toml::from_str::<toml::Value>` yields for a text: the document, or `None` when
/// the text is not TOML.
pub uninterp spec fn toml_document(text: Seq<char>) -> Option<toml::Value>;

/// What `toml::Value::get` yields for a string key: the entry of a table.
pub uninterp spec fn toml_get(v: toml::Value, key: Seq<char>) -> Option<toml::Value>;

/// What `toml::Value::as_table` yields: the value as a table, if it is one.
pub uninterp spec fn toml_table(v: toml::Value) -> Option<toml::map::Map<String, toml::Value>>;

/// The keys of a TOML table.
pub uninterp spec fn toml_table_keys(m: toml::map::Map<String, toml::Value>) -> Set<Seq<char>>;

/// `serde_json::from_str::<serde_json::Value>`, `None` on a parse error.
/// Trusted: the result is the document named by `json_document`.
#[verifier::external_body]
pub(crate) fn json_parse(text: &str) -> (r: Option<serde_json::Value>)
    ensures
        r == json_document(text@),
{
    serde_json::from_str::<serde_json::Value>(text).ok()
}

/// `serde_json::Value::get` with a string key.
/// Trusted: the result is the member named by `json_get`.
#[verifier::external_body]
pub(crate) fn json_member<'a>(v: &'a serde_json::Value, key: &str) -> (r: Option<&'a serde_json::Value>)
    ensures
        match r {
            Some(m) => json_get(*v, key@) == Some(*m),
            None => json_get(*v, key@) is None,
        },
{
    v.get(key)
}

/// `serde_json::Value::as_object`.
/// Trusted: the result is the object named by `json_object`.
#[verifier::external_body]
pub(crate) fn json_as_object(v: &serde_json::Value) -> (r: Option<&serde_json::Map<String, serde_json::Value>>)
    ensures
        match r {
            Some(m) => json_object(*v) == Some(*m),
            None => json_object(*v) is None,
        },
{
    v.as_object()
}

/// `serde_json::Map::contains_key`. Trusted: whether the key is among the object's keys.
#[verifier::external_body]
pub(crate) fn json_has_key(m: &serde_json::Map<String, serde_json::Value>, key: &str) -> (b: bool)
    ensures
        b == json_object_keys(*m).contains(key@),
{
    m.contains_key(key)
}

/// `toml::from_str::<toml::Value>`, `None` on a parse error.
/// Trusted: the result is the document named by `toml_document`.
#[verifier::external_body]
pub(crate) fn toml_parse(text: &str) -> (r: Option<toml::Value>)
    ensures
        r == toml_document(text@),
{
    toml::from_str::<toml::Value>(text).ok()
}

/// `toml::Value::get` with a string key.
/// Trusted: the result is the entry named by `toml_get`.
#[verifier::external_body]
pub(crate) fn toml_member<'a>(v: &'a toml::Value, key: &str) -> (r: Option<&'a toml::Value>)
    ensures
        match r {
            Some(m) => toml_get(*v, key@) == Some(*m),
            None => toml_get(*v, key@) is None,
        },
{
    v.get(key)
}

/// `toml::Value::as_table`.
/// Trusted: the result is the table named by `toml_table`.
#[verifier::external_body]
pub(crate) fn toml_as_table(v: &toml::Value) -> (r: Option<&toml::map::Map<String, toml::Value>>)
    ensures
        match r {
            Some(m) => toml_table(*v) == Some(*m),
            None => toml_table(*v) is None,
        },
{
    v.as_table()
}

/// `toml::map::Map::contains_key`. Trusted: whether the key is among the table's keys.
#[verifier::external_body]
pub(crate) fn toml_has_key(m: &toml::map::Map<String, toml::Value>, key: &str) -> (b: bool)
    ensures
        b == toml_table_keys(*m).contains(key@),
{
    m.contains_key(key)
}

} // verus!
