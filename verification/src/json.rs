//! The boundary to `serde_json`: a mathematical model of a JSON value and the
//! few calls into the crate that the codec is built from. Every function in
//! this file carries `external_body`: its contract is believed, not proved.

use vstd::prelude::*;

verus! {

/// What a JSON value is, as a mathematical tree.
pub enum JsonTree {
    Null,
    Bool(bool),
    /// A non-negative integer that fits 64 bits.
    Unsigned(u64),
    /// A negative integer that fits 64 bits.
    Negative(i64),
    /// Any other number, identified by the bit pattern of its double.
    Binary64(u64),
    Text(Seq<char>),
    Array(Seq<JsonTree>),
    Object(Map<Seq<char>, JsonTree>),
}

#[verifier::external_type_specification]
#[verifier::external_body]
pub struct ExValue(serde_json::Value);

#[verifier::external_type_specification]
#[verifier::external_body]
#[verifier::reject_recursive_types(K)]
#[verifier::reject_recursive_types(V)]
pub struct ExObject<K, V>(serde_json::Map<K, V>);

#[verifier::external_type_specification]
#[verifier::external_body]
pub struct ExJsonError(serde_json::Error);

/// The tree that a `serde_json::Value` stands for.
pub uninterp spec fn value_tree(v: serde_json::Value) -> JsonTree;

/// The members that a `serde_json::Map` holds, by key.
pub uninterp spec fn object_fields(m: serde_json::Map<String, serde_json::Value>) -> Map<
    Seq<char>,
    JsonTree,
>;

/// The compact text that `serde_json::to_vec` writes for a value with this tree.
pub uninterp spec fn json_bytes(t: JsonTree) -> Seq<u8>;

/// The tree that `serde_json::from_slice` reads from these bytes, if it accepts them.
pub uninterp spec fn json_parse(bytes: Seq<u8>) -> Option<JsonTree>;

/// The trees of a sequence of values, in order.
pub open spec fn value_trees(items: Seq<serde_json::Value>) -> Seq<JsonTree> {
    items.map_values(|v: serde_json::Value| value_tree(v))
}

/// The keys of a sequence of strings, in order.
pub open spec fn key_views(keys: Seq<String>) -> Seq<Seq<char>> {
    keys.map_values(|k: String| k@)
}

/// `Value::String`: the value that is the text `s`.
#[verifier::external_body]
pub(crate) fn text_value(s: &str) -> (v: serde_json::Value)
    ensures
        value_tree(v) == JsonTree::Text(s@),
{
    serde_json::Value::String(s.to_owned())
}

/// `Value::from` on a `u64`: the value that is the non-negative integer `n`.
#[verifier::external_body]
pub(crate) fn number_value(n: u64) -> (v: serde_json::Value)
    ensures
        value_tree(v) == JsonTree::Unsigned(n),
{
    serde_json::Value::from(n)
}

/// `Value::Array`: the array of the given values, in their order.
#[verifier::external_body]
pub(crate) fn array_value(items: Vec<serde_json::Value>) -> (v: serde_json::Value)
    ensures
        value_tree(v) == JsonTree::Array(value_trees(items@)),
{
    serde_json::Value::Array(items)
}

/// `Map::new`: an object without members.
#[verifier::external_body]
pub(crate) fn new_object() -> (obj: serde_json::Map<String, serde_json::Value>)
    ensures
        object_fields(obj) =~= Map::empty(),
{
    serde_json::Map::new()
}

/// `Map::insert`: the member `key` is set to `v`, replacing an earlier one of
/// that key; the other members stay.
#[verifier::external_body]
pub(crate) fn object_insert(
    m: &mut serde_json::Map<String, serde_json::Value>,
    key: &str,
    v: serde_json::Value,
)
    ensures
        object_fields(*final(m)) == object_fields(*old(m)).insert(key@, value_tree(v)),
{
    m.insert(key.to_owned(), v);
}

/// `Value::Object`: the object with exactly the members of `m`.
#[verifier::external_body]
pub(crate) fn object_value(m: serde_json::Map<String, serde_json::Value>) -> (v: serde_json::Value)
    ensures
        value_tree(v) == JsonTree::Object(object_fields(m)),
{
    serde_json::Value::Object(m)
}

/// `Value::is_null`: whether the value is the JSON null.
#[verifier::external_body]
pub(crate) fn is_null(v: &serde_json::Value) -> (r: bool)
    ensures
        r == (value_tree(*v) == JsonTree::Null),
{
    v.is_null()
}

/// `Value::as_str`: the text of a value that is a text, nothing of any other.
#[verifier::external_body]
pub(crate) fn as_text<'a>(v: &'a serde_json::Value) -> (r: Option<&'a str>)
    ensures
        match value_tree(*v) {
            JsonTree::Text(s) => r is Some && r.unwrap()@ == s,
            _ => r is None,
        },
{
    v.as_str()
}

/// `Value::as_u64`: the number of a value that is a non-negative integer of
/// 64 bits, nothing of any other.
#[verifier::external_body]
pub(crate) fn as_unsigned(v: &serde_json::Value) -> (r: Option<u64>)
    ensures
        match value_tree(*v) {
            JsonTree::Unsigned(n) => r == Some(n),
            _ => r is None,
        },
{
    v.as_u64()
}

/// `Value::as_array`: the elements of a value that is an array, nothing of
/// any other.
#[verifier::external_body]
pub(crate) fn as_array<'a>(v: &'a serde_json::Value) -> (r: Option<&'a Vec<serde_json::Value>>)
    ensures
        match value_tree(*v) {
            JsonTree::Array(items) => r is Some && value_trees(r.unwrap()@) == items,
            _ => r is None,
        },
{
    v.as_array()
}

/// `Value::as_object`: the members of a value that is an object, nothing of
/// any other.
#[verifier::external_body]
pub(crate) fn as_object<'a>(v: &'a serde_json::Value) -> (r: Option<
    &'a serde_json::Map<String, serde_json::Value>,
>)
    ensures
        match value_tree(*v) {
            JsonTree::Object(fields) => r is Some && object_fields(*r.unwrap()) == fields,
            _ => r is None,
        },
{
    v.as_object()
}

/// `Map::get`: the member of that key, if the object has one.
#[verifier::external_body]
pub(crate) fn object_get<'a>(
    m: &'a serde_json::Map<String, serde_json::Value>,
    key: &str,
) -> (r: Option<&'a serde_json::Value>)
    ensures
        match r {
            Some(v) => object_fields(*m).contains_key(key@) && object_fields(*m)[key@]
                == value_tree(*v),
            None => !object_fields(*m).contains_key(key@),
        },
{
    m.get(key)
}

/// `Map::keys`: every key of the object, each once.
#[verifier::external_body]
pub(crate) fn object_keys(m: &serde_json::Map<String, serde_json::Value>) -> (keys: Vec<String>)
    ensures
        key_views(keys@).no_duplicates(),
        key_views(keys@).to_set() == object_fields(*m).dom(),
{
    m.keys().cloned().collect()
}

/// `serde_json::to_vec` on a `Value`: the compact text of the value. It
/// holds no line feed, since the compact form has no white space between
/// tokens and a text is written with its control characters escaped.
/// Writing a `Value` to memory cannot fail: its keys are strings and its
/// numbers are finite.
#[verifier::external_body]
pub(crate) fn print_value(v: &serde_json::Value) -> (out: Vec<u8>)
    ensures
        out@ == json_bytes(value_tree(*v)),
        !out@.contains(10u8),
{
    serde_json::to_vec(v).unwrap_or_default()
}

/// `serde_json::from_slice` into a `Value`: the value that the bytes spell,
/// or the crate's error where they are not one JSON text in UTF-8.
#[verifier::external_body]
pub(crate) fn parse_value(bytes: &[u8]) -> (r: Result<serde_json::Value, serde_json::Error>)
    ensures
        match r {
            Ok(v) => json_parse(bytes@) == Some(value_tree(v)),
            Err(_) => json_parse(bytes@) is None,
        },
{
    serde_json::from_slice::<serde_json::Value>(bytes)
}

} // verus!
