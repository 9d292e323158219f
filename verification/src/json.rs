//! JSON documents, as `serde_json` reads them.

use vstd::prelude::*;

verus! {

/// `serde_json::Value`, a JSON document in memory. What it holds is named
/// `json_of`.
#[verifier::external_type_specification]
#[verifier::external_body]
pub struct ExJsonValue(serde_json::Value);

/// `serde_json::Error`, the reason for which a text is not accepted. Nothing
/// of it is read here.
#[verifier::external_type_specification]
#[verifier::external_body]
pub struct ExJsonError(serde_json::Error);

/// What a JSON value holds. A number is kept without its digits: nothing here
/// reads them.
pub enum Json {
    Null,
    Bool(bool),
    Number,
    Text(Seq<char>),
    Array(Seq<Json>),
    Object(Map<Seq<char>, Json>),
}

impl Json {
    /// The member of an object under a key. A value that is no object has no
    /// members.
    pub open spec fn member(self, key: Seq<char>) -> Option<Json> {
        match self {
            Json::Object(members) => if members.contains_key(key) {
                Some(members[key])
            } else {
                None
            },
            _ => None,
        }
    }

    /// The elements of an array.
    pub open spec fn elements(self) -> Option<Seq<Json>> {
        match self {
            Json::Array(elements) => Some(elements),
            _ => None,
        }
    }

    /// The characters of a string.
    pub open spec fn text(self) -> Option<Seq<char>> {
        match self {
            Json::Text(text) => Some(text),
            _ => None,
        }
    }
}

/// What a `serde_json::Value` holds.
pub uninterp spec fn json_of(value: serde_json::Value) -> Json;

/// The document that `serde_json::from_str` reads from a text, if it accepts
/// the text.
pub uninterp spec fn json_parsed(text: Seq<char>) -> Option<Json>;

/// Calls `serde_json::from_str` for a `Value`. The result is named
/// `json_parsed`: the document where the text is accepted, nothing where an
/// error is reported.
#[verifier::external_body]
pub(crate) fn parse(text: &str) -> (r: Result<serde_json::Value, serde_json::Error>)
    ensures
        match r {
            Ok(value) => json_parsed(text@) == Some(json_of(value)),
            Err(_) => json_parsed(text@) is None,
        },
{
    serde_json::from_str::<serde_json::Value>(text)
}

/// Calls `Value::get` with a string key: the member under that key where the
/// value is an object that has one, else nothing.
#[verifier::external_body]
pub(crate) fn member<'a>(value: &'a serde_json::Value, key: &str) -> (r: Option<
    &'a serde_json::Value,
>)
    ensures
        match r {
            Some(found) => json_of(*value).member(key@) == Some(json_of(*found)),
            None => json_of(*value).member(key@) is None,
        },
{
    value.get(key)
}

/// Calls `Value::as_array`: the elements where the value is an array, else
/// nothing.
#[verifier::external_body]
pub(crate) fn elements<'a>(value: &'a serde_json::Value) -> (r: Option<
    &'a Vec<serde_json::Value>,
>)
    ensures
        match r {
            Some(found) => json_of(*value).elements() == Some(
                Seq::new(found@.len(), |i: int| json_of(found@[i])),
            ),
            None => json_of(*value).elements() is None,
        },
{
    value.as_array()
}

/// Calls `Value::as_str`: the characters where the value is a string, else
/// nothing.
#[verifier::external_body]
pub(crate) fn text<'a>(value: &'a serde_json::Value) -> (r: Option<&'a str>)
    ensures
        match r {
            Some(found) => json_of(*value).text() == Some(found@),
            None => json_of(*value).text() is None,
        },
{
    value.as_str()
}

} // verus!
