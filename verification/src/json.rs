//! Reading JSON documents through `serde_json`.

use vstd::prelude::*;

verus! {

/// `serde_json::Value`: a parsed JSON value, carried through as it is.
#[verifier::external_type_specification]
#[verifier::external_body]
pub struct ExValue(serde_json::Value);

/// A JSON value: what it is, and for a string, an array or an object what it
/// holds.
pub enum Json {
    Null,
    Bool,
    Number,
    Text(Seq<char>),
    Array(Seq<Json>),
    Object(Map<Seq<char>, Json>),
}

/// What a parsed value holds.
pub uninterp spec fn json_of(value: serde_json::Value) -> Json;

/// The value that a JSON text denotes; `None` where the text is not JSON.
pub uninterp spec fn json_document(text: Seq<char>) -> Option<Json>;

/// The member of an object under a key; `None` where the value is no object
/// or has no such member.
pub open spec fn member_of(value: Json, key: Seq<char>) -> Option<Json> {
    match value {
        Json::Object(members) => if members.contains_key(key) {
            Some(members[key])
        } else {
            None
        },
        _ => None,
    }
}

/// The text of a string; `None` for any other value.
pub open spec fn text_of(value: Json) -> Option<Seq<char>> {
    match value {
        Json::Text(text) => Some(text),
        _ => None,
    }
}

/// The text of the member of an object under a key; `None` where there is
/// no such member or it is no string.
pub open spec fn text_member(object: Json, key: Seq<char>) -> Option<Seq<char>> {
    match member_of(object, key) {
        Some(inner) => text_of(inner),
        None => None,
    }
}

/// `serde_json::from_str` at the type `Value`: the value that the text
/// denotes, or `None` where `serde_json` reports an error.
#[verifier::external_body]
pub(crate) fn parse(text: &str) -> (document: Option<serde_json::Value>)
    ensures
        match document {
            Some(value) => json_document(text@) == Some(json_of(value)),
            None => json_document(text@) is None,
        },
{
    serde_json::from_str::<serde_json::Value>(text).ok()
}

/// `Value::get` with a string as the index: the member of an object under
/// the key, or `None` where the value is no object or has no such member.
#[verifier::external_body]
pub(crate) fn member<'a>(value: &'a serde_json::Value, key: &str) -> (found: Option<&'a serde_json::Value>)
    ensures
        match found {
            Some(inner) => member_of(json_of(*value), key@) == Some(json_of(*inner)),
            None => member_of(json_of(*value), key@) is None,
        },
{
    value.get(key)
}

/// `Value::as_str`: the text of a string, or `None` for any other value.
#[verifier::external_body]
pub(crate) fn text(value: &serde_json::Value) -> (found: Option<String>)
    ensures
        match found {
            Some(string) => text_of(json_of(*value)) == Some(string@),
            None => text_of(json_of(*value)) is None,
        },
{
    value.as_str().map(|string| string.to_owned())
}

/// The text of the member of an object under a key.
pub fn get_text(object: &serde_json::Value, key: &str) -> (found: Option<String>)
    ensures
        match found {
            Some(string) => text_member(json_of(*object), key@) == Some(string@),
            None => text_member(json_of(*object), key@) is None,
        },
{
    match member(object, key) {
        Some(inner) => text(inner),
        None => None,
    }
}

} // verus!
