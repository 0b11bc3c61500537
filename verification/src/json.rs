//! The JSON values that a record's metadata is made of.
//!
//! The values themselves are `serde_json`'s. Every `serde_json` function that
//! the library calls stands in this file, behind a wrapper whose contract says
//! what it does in terms of [`Json`], the mathematical model of a JSON value.

use vstd::prelude::*;

verus! {

/// What a JSON value is: the model of `serde_json::Value`.
#[verifier::ext_equal]
pub enum Json {
    Null,
    /// A number that is a non-negative integer.
    Unsigned(nat),
    Text(Seq<char>),
    Array(Seq<Json>),
    Object(Map<Seq<char>, Json>),
    /// A boolean or any other number. This library only carries such a value, so
    /// it stands for itself.
    Other(serde_json::Value),
}

/// `serde_json::Value`, carried as an opaque value.
#[verifier::external_type_specification]
#[verifier::external_body]
pub struct ExValue(serde_json::Value);

/// `serde_json::Map`, the collection that an object's fields are kept in.
#[verifier::external_type_specification]
#[verifier::external_body]
#[verifier::reject_recursive_types(K)]
#[verifier::reject_recursive_types(V)]
pub struct ExMap<K, V>(serde_json::Map<K, V>);

/// What a `serde_json::Value` holds.
pub uninterp spec fn model(value: serde_json::Value) -> Json;

/// What a `serde_json::Map` holds: the value under each of its keys.
pub uninterp spec fn fields(object: serde_json::Map<String, serde_json::Value>) -> Map<
    Seq<char>,
    Json,
>;

/// The values that a sequence of `serde_json::Value`s holds, in order.
pub open spec fn models(values: Seq<serde_json::Value>) -> Seq<Json> {
    values.map_values(|value: serde_json::Value| model(value))
}

/// A size that may be missing: a number, or `null`.
pub open spec fn optional_unsigned(n: Option<usize>) -> Json {
    match n {
        Some(n) => Json::Unsigned(n as nat),
        None => Json::Null,
    }
}

/// There is one JSON value for each value of a sequence, at the same place.
pub proof fn law_models(values: Seq<serde_json::Value>)
    ensures
        models(values).len() == values.len(),
        forall|i: int| 0 <= i < values.len() ==> #[trigger] models(values)[i] == model(values[i]),
{
}

/// A size that is there is the number itself; one that is missing is `null`.
pub proof fn law_optional_unsigned(n: usize)
    ensures
        optional_unsigned(Some(n)) == Json::Unsigned(n as nat),
        optional_unsigned(None) == Json::Null,
{
}

/// `serde_json::Value::from(usize)`: the JSON number `n`.
#[verifier::external_body]
pub(crate) fn unsigned_value(n: usize) -> (value: serde_json::Value)
    ensures
        model(value) == Json::Unsigned(n as nat),
{
    serde_json::Value::from(n)
}

/// `serde_json::Value::from(Option<usize>)`: `null` for `None`, and otherwise
/// the JSON number that the option holds.
#[verifier::external_body]
pub(crate) fn optional_unsigned_value(n: Option<usize>) -> (value: serde_json::Value)
    ensures
        model(value) == optional_unsigned(n),
{
    serde_json::Value::from(n)
}

/// `serde_json::Value::from(&str)`: a JSON string with the characters of `text`.
#[verifier::external_body]
pub(crate) fn text_value(text: &str) -> (value: serde_json::Value)
    ensures
        model(value) == Json::Text(text@),
{
    serde_json::Value::from(text)
}

/// `serde_json::Value::from(Vec<serde_json::Value>)`: a JSON array of the given
/// values, in their order.
#[verifier::external_body]
pub(crate) fn array_value(values: Vec<serde_json::Value>) -> (value: serde_json::Value)
    ensures
        model(value) == Json::Array(models(values@)),
{
    serde_json::Value::from(values)
}

/// `serde_json::Value::from(serde_json::Map)`: a JSON object with the fields of
/// the map.
#[verifier::external_body]
pub(crate) fn object_value(
    object: serde_json::Map<String, serde_json::Value>,
) -> (value: serde_json::Value)
    ensures
        model(value) == Json::Object(fields(object)),
{
    serde_json::Value::from(object)
}

/// `serde_json::Map::new`: a map without fields.
#[verifier::external_body]
pub(crate) fn new_object() -> (object: serde_json::Map<String, serde_json::Value>)
    ensures
        (fields(object) == Map::<Seq<char>, Json>::empty()),
{
    serde_json::Map::new()
}

/// `serde_json::Map::insert`: puts `value` under `key`, over whatever was there.
/// The value that was there before, which `insert` returns, is dropped.
#[verifier::external_body]
pub(crate) fn insert_field(
    object: &mut serde_json::Map<String, serde_json::Value>,
    key: &str,
    value: serde_json::Value,
)
    ensures
        fields(*final(object)) == fields(*old(object)).insert(key@, model(value)),
{
    object.insert(key.to_owned(), value);
}

} // verus!
