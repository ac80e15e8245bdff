//! Reading JSON documents with `serde_json`. What a document holds is stated
//! over `Json`; the reading itself is left to the crate.
use vstd::prelude::*;

verus! {

/// The type of JSON values of `serde_json`.
#[verifier::external_type_specification]
#[verifier::external_body]
pub struct ExValue(serde_json::Value);

/// What a JSON value holds. Of a number only that is kept which it is as a `u64`:
/// a negative number, a fraction and one that is too large are none.
pub enum Json {
    Null,
    Bool(bool),
    Number(Option<u64>),
    Text(Seq<char>),
    Array(Seq<Json>),
    Object(Map<Seq<char>, Json>),
}

/// What a value of `serde_json` holds.
pub uninterp spec fn json_view(value: serde_json::Value) -> Json;

/// The document that `serde_json` reads from `bytes`; `None` where they are not one
/// JSON value.
pub uninterp spec fn json_document(bytes: Seq<u8>) -> Option<Json>;

/// Trusted: `serde_json::from_slice` reads one JSON value that takes up all of
/// `bytes`, or fails. What it reads depends on the bytes alone.
#[verifier::external_body]
pub(crate) fn read_json(bytes: &[u8]) -> (value: Option<serde_json::Value>)
    ensures
        (match value {
            Some(value) => Some(json_view(value)),
            None => None,
        }) == json_document(bytes@),
{
    serde_json::from_slice::<serde_json::Value>(bytes).ok()
}

/// Trusted: `Value::get`, with a string, gives the member of an object that has
/// this key, and nothing for a key that the object lacks or for another value.
#[verifier::external_body]
pub(crate) fn member<'a>(value: &'a serde_json::Value, key: &str) -> (member: Option<
    &'a serde_json::Value,
>)
    ensures
        (match member {
            Some(member) => Some(json_view(*member)),
            None => None,
        }) == json_view(*value).member(key@),
{
    value.get(key)
}

/// Trusted: `Value::as_array` gives the items of an array in their order, and
/// nothing for another value.
#[verifier::external_body]
pub(crate) fn items(value: &serde_json::Value) -> (items: Option<&Vec<serde_json::Value>>)
    ensures
        (match items {
            Some(items) => Some(Seq::new(items@.len(), |i: int| json_view(items@[i]))),
            None => None,
        }) == json_view(*value).items(),
{
    value.as_array()
}

/// Trusted: `Value::as_str` gives the text of a string, and nothing for another
/// value.
#[verifier::external_body]
pub(crate) fn text(value: &serde_json::Value) -> (text: Option<&str>)
    ensures
        (match text {
            Some(text) => Some(text@),
            None => None,
        }) == json_view(*value).text(),
{
    value.as_str()
}

/// Trusted: `Value::as_bool` gives a boolean, and nothing for another value.
#[verifier::external_body]
pub(crate) fn boolean(value: &serde_json::Value) -> (boolean: Option<bool>)
    ensures
        boolean == json_view(*value).boolean(),
{
    value.as_bool()
}

/// Trusted: `Value::as_u64` gives a number that is a `u64`, and nothing for another
/// number or another value.
#[verifier::external_body]
pub(crate) fn unsigned(value: &serde_json::Value) -> (number: Option<u64>)
    ensures
        number == json_view(*value).unsigned(),
{
    value.as_u64()
}

impl Json {
    /// The member of an object with this key.
    pub open spec fn member(self, key: Seq<char>) -> Option<Json> {
        match self {
            Json::Object(members) => if members.contains_key(key) {
                Some(members[key])
            } else {
                None
            },
            _ => None,
        }
    }

    /// The items of an array.
    pub open spec fn items(self) -> Option<Seq<Json>> {
        match self {
            Json::Array(items) => Some(items),
            _ => None,
        }
    }

    /// The text of a string.
    pub open spec fn text(self) -> Option<Seq<char>> {
        match self {
            Json::Text(text) => Some(text),
            _ => None,
        }
    }

    /// The value of a boolean.
    pub open spec fn boolean(self) -> Option<bool> {
        match self {
            Json::Bool(value) => Some(value),
            _ => None,
        }
    }

    /// The number, where it is a `u64`.
    pub open spec fn unsigned(self) -> Option<u64> {
        match self {
            Json::Number(number) => number,
            _ => None,
        }
    }

    /// The text of the member with this key.
    pub open spec fn text_member(self, key: Seq<char>) -> Option<Seq<char>> {
        match self.member(key) {
            Some(member) => member.text(),
            None => None,
        }
    }

    /// The boolean of the member with this key.
    pub open spec fn boolean_member(self, key: Seq<char>) -> Option<bool> {
        match self.member(key) {
            Some(member) => member.boolean(),
            None => None,
        }
    }

    /// The number of the member with this key, where it is a `u64`.
    pub open spec fn unsigned_member(self, key: Seq<char>) -> Option<u64> {
        match self.member(key) {
            Some(member) => member.unsigned(),
            None => None,
        }
    }
}

/// Reads the text of a member.
pub(crate) fn text_member(value: &serde_json::Value, key: &str) -> (result: Option<String>)
    ensures
        (match result {
            Some(result) => Some(result@),
            None => None,
        }) == json_view(*value).text_member(key@),
{
    match member(value, key) {
        Some(member) => match text(member) {
            Some(text) => Some(text.to_owned()),
            None => None,
        },
        None => None,
    }
}

/// Reads the boolean of a member.
pub(crate) fn boolean_member(value: &serde_json::Value, key: &str) -> (result: Option<bool>)
    ensures
        result == json_view(*value).boolean_member(key@),
{
    match member(value, key) {
        Some(member) => boolean(member),
        None => None,
    }
}

/// Reads the number of a member.
pub(crate) fn unsigned_member(value: &serde_json::Value, key: &str) -> (result: Option<u64>)
    ensures
        result == json_view(*value).unsigned_member(key@),
{
    match member(value, key) {
        Some(member) => unsigned(member),
        None => None,
    }
}

} // verus!
