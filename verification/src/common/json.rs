//! Flat JSON objects, built and rendered by `serde_json`.

use vstd::prelude::*;

verus! {

#[verifier::external_type_specification]
#[verifier::external_body]
#[verifier::reject_recursive_types(K)]
#[verifier::reject_recursive_types(V)]
pub struct ExJsonMap<K, V>(serde_json::Map<K, V>);

#[verifier::external_type_specification]
#[verifier::external_body]
pub struct ExJsonValue(serde_json::Value);

/// The members of a JSON object whose values are strings, by key.
pub uninterp spec fn json_text_members(object: serde_json::Map<String, serde_json::Value>) -> Map<
    Seq<char>,
    Seq<char>,
>;

/// The members of a JSON object whose values are unsigned integers, by key.
pub uninterp spec fn json_number_members(
    object: serde_json::Map<String, serde_json::Value>,
) -> Map<Seq<char>, u64>;

/// Every member of the object is a string or an unsigned integer.
pub uninterp spec fn json_is_flat(object: serde_json::Map<String, serde_json::Value>) -> bool;

/// The compact JSON text of an object that has the given string and
/// integer members and no others, as `serde_json` writes it.
pub uninterp spec fn json_object_text(
    texts: Map<Seq<char>, Seq<char>>,
    numbers: Map<Seq<char>, u64>,
) -> Seq<char>;

/// No string members.
pub open spec fn no_text_members() -> Map<Seq<char>, Seq<char>> {
    Map::empty()
}

/// No integer members.
pub open spec fn no_number_members() -> Map<Seq<char>, u64> {
    Map::empty()
}

/// An empty JSON object, from `serde_json::Map::new`.
#[verifier::external_body]
pub(crate) fn json_object() -> (object: serde_json::Map<String, serde_json::Value>)
    ensures
        json_text_members(object) == no_text_members(),
        json_number_members(object) == no_number_members(),
        json_is_flat(object),
{
    serde_json::Map::new()
}

/// Sets the member `key` to the string `value`, through
/// `serde_json::Map::insert`: a member of that key is replaced, whatever it
/// held; all other members stay. An object whose members were all strings
/// or unsigned integers is still one.
#[verifier::external_body]
pub(crate) fn json_put_text(
    object: &mut serde_json::Map<String, serde_json::Value>,
    key: &str,
    value: &str,
)
    ensures
        json_text_members(*final(object)) == json_text_members(*old(object)).insert(key@, value@),
        json_number_members(*final(object)) == json_number_members(*old(object)).remove(key@),
        json_is_flat(*old(object)) ==> json_is_flat(*final(object)),
{
    object.insert(key.to_owned(), serde_json::Value::String(value.to_owned()));
}

/// Sets the member `key` to the integer `value`, through
/// `serde_json::Map::insert`: a member of that key is replaced, whatever it
/// held; all other members stay. An object whose members were all strings
/// or unsigned integers is still one.
#[verifier::external_body]
pub(crate) fn json_put_number(
    object: &mut serde_json::Map<String, serde_json::Value>,
    key: &str,
    value: u64,
)
    ensures
        json_number_members(*final(object)) == json_number_members(*old(object)).insert(
            key@,
            value,
        ),
        json_text_members(*final(object)) == json_text_members(*old(object)).remove(key@),
        json_is_flat(*old(object)) ==> json_is_flat(*final(object)),
{
    object.insert(key.to_owned(), serde_json::Value::from(value));
}

/// The compact JSON text of an object whose members are all strings or
/// unsigned integers, as `serde_json` writes a `Value::Object`: it depends
/// on the members alone.
#[verifier::external_body]
pub(crate) fn json_render(object: serde_json::Map<String, serde_json::Value>) -> (text: String)
    requires
        json_is_flat(object),
    ensures
        text@ == json_object_text(json_text_members(object), json_number_members(object)),
{
    serde_json::Value::Object(object).to_string()
}


/// The string under `key`, through `serde_json::Map::get` and
/// `serde_json::Value::as_str`: there is one exactly when the object has a
/// member of that key whose value is a string.
#[verifier::external_body]
pub(crate) fn json_get_text(
    object: &serde_json::Map<String, serde_json::Value>,
    key: &str,
) -> (value: Option<String>)
    ensures
        value is Some <==> json_text_members(*object).contains_key(key@),
        value matches Some(text) ==> text@ == json_text_members(*object)[key@],
{
    object.get(key).and_then(|value| value.as_str()).map(|text| text.to_owned())
}

/// The unsigned integer under `key`, through `serde_json::Map::get` and
/// `serde_json::Value::as_u64`: there is one exactly when the object has a
/// member of that key whose value is an integer from 0 to 2^64 - 1.
#[verifier::external_body]
pub(crate) fn json_get_number(
    object: &serde_json::Map<String, serde_json::Value>,
    key: &str,
) -> (value: Option<u64>)
    ensures
        value is Some <==> json_number_members(*object).contains_key(key@),
        value matches Some(number) ==> number == json_number_members(*object)[key@],
{
    object.get(key).and_then(|value| value.as_u64())
}

} // verus!
