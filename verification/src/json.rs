//! JSON documents: the model that contracts speak of, and the calls into `serde_json`.

use serde_json::Value;
use vstd::prelude::*;

verus! {

/// A JSON document as a mathematical value.
///
/// Two numbers are the same [`Json`] exactly when `serde_json` compares them equal, so the
/// integer in [`Json::Number`] stands for a class of numbers and carries no magnitude. The
/// order in which an object lists its members plays no part.
pub enum Json {
    Null,
    Bool(bool),
    Number(int),
    Text(Seq<char>),
    Array(Seq<Json>),
    Object(Map<Seq<char>, Json>),
}

impl Json {
    /// The member of an object under `key`; nothing for any other kind of document.
    pub open spec fn member(self, key: Seq<char>) -> Option<Json> {
        match self {
            Json::Object(members) => if members.contains_key(key) {
                Some(members[key])
            } else {
                None
            },
            _ => None,
        }
    }

    /// Whether the document is an object with a member under `key`.
    pub open spec fn has(self, key: Seq<char>) -> bool {
        self.member(key) is Some
    }

    /// The characters of a text document.
    pub open spec fn text(self) -> Option<Seq<char>> {
        match self {
            Json::Text(chars) => Some(chars),
            _ => None,
        }
    }
}

/// `serde_json::Value`, whose contents are named by [`json_of`] and [`compact_text`].
#[verifier::external_type_specification]
#[verifier::external_body]
pub struct ExValue(serde_json::Value);

/// The document that a `serde_json::Value` holds.
pub uninterp spec fn json_of(value: serde_json::Value) -> Json;

/// The text that `serde_json::to_string` writes for a `serde_json::Value`.
pub uninterp spec fn compact_text(value: serde_json::Value) -> Seq<char>;

/// What `serde_json::from_str` reads from a text: a value, or nothing where it refuses.
pub uninterp spec fn parsed_text(text: Seq<char>) -> Option<serde_json::Value>;

/// What `serde_json::from_slice` reads from bytes: a value, or the message of its error.
pub uninterp spec fn parsed_bytes(bytes: Seq<u8>) -> Result<serde_json::Value, Seq<char>>;

/// Calls `serde_json::from_str`. Trusted: what comes back depends on the text alone and is
/// named by [`parsed_text`]; the error is dropped.
#[verifier::external_body]
pub(crate) fn parse_text(text: &str) -> (parsed: Option<Value>)
    ensures
        parsed == parsed_text(text@),
{
    serde_json::from_str(text).ok()
}

/// Calls `serde_json::from_slice`. Trusted: what comes back depends on the bytes alone and is
/// named by [`parsed_bytes`]; an error is turned into its message.
#[verifier::external_body]
pub(crate) fn parse_bytes(bytes: &[u8]) -> (parsed: Result<Value, String>)
    ensures
        match parsed {
            Ok(value) => parsed_bytes(bytes@) == Ok::<Value, Seq<char>>(value),
            Err(message) => parsed_bytes(bytes@) == Err::<Value, Seq<char>>(message@),
        },
{
    match serde_json::from_slice(bytes) {
        Ok(value) => Ok(value),
        Err(error) => Err(error.to_string()),
    }
}

/// Calls `serde_json::Value::get` with a text key. Trusted: it gives the member of an object
/// under that key, and nothing where there is none or the value is no object.
#[verifier::external_body]
pub(crate) fn member<'a>(value: &'a Value, key: &str) -> (found: Option<&'a Value>)
    ensures
        match found {
            Some(inner) => json_of(*value).member(key@) == Some(json_of(*inner)),
            None => json_of(*value).member(key@) is None,
        },
{
    value.get(key)
}

/// Calls `serde_json::Value::as_str`. Trusted: it gives the characters of a text, and nothing
/// for any other kind of value.
#[verifier::external_body]
pub(crate) fn as_text(value: &Value) -> (text: Option<&str>)
    ensures
        match text {
            Some(chars) => json_of(*value).text() == Some(chars@),
            None => json_of(*value).text() is None,
        },
{
    value.as_str()
}

/// Calls `serde_json::Value::is_null`. Trusted: it tells whether the value is JSON `null`.
#[verifier::external_body]
pub(crate) fn is_null(value: &Value) -> (null: bool)
    ensures
        null == (json_of(*value) is Null),
{
    value.is_null()
}

/// Calls `serde_json::Value::is_array`. Trusted: it tells whether the value is an array.
#[verifier::external_body]
pub(crate) fn is_array(value: &Value) -> (array: bool)
    ensures
        array == (json_of(*value) is Array),
{
    value.is_array()
}

/// Calls `==` of `serde_json::Value`. Trusted: two values compare equal exactly when they hold
/// the same document.
#[verifier::external_body]
pub(crate) fn same_json(left: &Value, right: &Value) -> (same: bool)
    ensures
        same == (json_of(*left) == json_of(*right)),
{
    left == right
}

/// Calls `clone` of `serde_json::Value`. Trusted: the copy holds the same document and is
/// written as the same text.
#[verifier::external_body]
pub(crate) fn copy_json(value: &Value) -> (copy: Value)
    ensures
        json_of(copy) == json_of(*value),
        compact_text(copy) == compact_text(*value),
{
    value.clone()
}

/// Calls `serde_json::to_string`, which does not fail on a `serde_json::Value`. Trusted: the
/// text depends on the value alone and is named by [`compact_text`].
#[verifier::external_body]
pub(crate) fn write_json(value: &Value) -> (text: String)
    ensures
        text@ == compact_text(*value),
{
    serde_json::to_string(value).unwrap()
}

} // verus!
