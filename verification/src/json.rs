//! JSON documents, read and written by `serde_json`.
//!
//! Nothing in this module is proved of `serde_json` itself. The functions
//! marked `external_body` call it, and their contracts say what is taken on
//! trust: over a tree that stands for a parsed value, and over names for what
//! parsing and writing give.

use vstd::prelude::*;

verus! {

/// `serde_json::Value`, as a type that nothing is seen inside of. What a
/// value holds is named by `json_tree`.
#[verifier::external_type_specification]
#[verifier::external_body]
pub struct ExJsonValue(serde_json::Value);

/// `serde_json::Error`, as a type that nothing is seen inside of. What an
/// error says is named by `json_error_text`.
#[verifier::external_type_specification]
#[verifier::external_body]
pub struct ExJsonError(serde_json::Error);

/// A JSON value as a tree. The value of a number is not modelled.
pub enum JsonTree {
    Null,
    Bool(bool),
    Number,
    Text(Seq<char>),
    Array(Seq<JsonTree>),
    Object(Map<Seq<char>, JsonTree>),
}

impl JsonTree {
    /// The member of an object under a key. Anything that is not an object,
    /// and an object without the key, gives `Null`.
    pub open spec fn member(self, key: Seq<char>) -> JsonTree {
        match self {
            JsonTree::Object(members) => if members.contains_key(key) {
                members[key]
            } else {
                JsonTree::Null
            },
            _ => JsonTree::Null,
        }
    }

    /// The element of an array at a position. Anything that is not an array,
    /// and an array that is too short, gives `Null`.
    pub open spec fn element(self, index: int) -> JsonTree {
        match self {
            JsonTree::Array(elements) => if 0 <= index < elements.len() {
                elements[index]
            } else {
                JsonTree::Null
            },
            _ => JsonTree::Null,
        }
    }

    /// The text of a string; `None` for anything else.
    pub open spec fn text(self) -> Option<Seq<char>> {
        match self {
            JsonTree::Text(text) => Some(text),
            _ => None,
        }
    }
}

/// The tree that a parsed value holds.
pub uninterp spec fn json_tree(value: serde_json::Value) -> JsonTree;

/// What a parse error says of itself.
pub uninterp spec fn json_error_text(error: serde_json::Error) -> Seq<char>;

/// What parsing makes of a text: the tree of the document, or what the
/// parser says is wrong with it.
pub uninterp spec fn json_document(text: Seq<char>) -> Result<JsonTree, Seq<char>>;

/// The compact text of the JSON object whose members are the given keys with
/// the given strings as values.
pub uninterp spec fn json_object_text(members: Seq<(Seq<char>, Seq<char>)>) -> Seq<char>;

/// The keys and values of a list of members, as texts.
pub open spec fn members_view(members: Seq<(String, String)>) -> Seq<(Seq<char>, Seq<char>)> {
    members.map_values(|m: (String, String)| (m.0@, m.1@))
}

/// Calls `serde_json::from_str` for a `Value`. Trusted: the outcome depends
/// on the text alone.
#[verifier::external_body]
pub(crate) fn parse_json(text: &str) -> (r: Result<serde_json::Value, serde_json::Error>)
    ensures
        match r {
            Ok(value) => json_document(text@) == Ok::<JsonTree, Seq<char>>(json_tree(value)),
            Err(error) => json_document(text@) == Err::<JsonTree, Seq<char>>(
                json_error_text(error),
            ),
        },
{
    serde_json::from_str::<serde_json::Value>(text)
}

/// Indexes a `serde_json::Value` by a key, through its `Index`. Trusted:
/// the member of an object under that key, and `Null` where there is none.
#[verifier::external_body]
pub(crate) fn json_member<'a>(value: &'a serde_json::Value, key: &str) -> (r:
    &'a serde_json::Value)
    ensures
        json_tree(*r) == json_tree(*value).member(key@),
{
    &value[key]
}

/// Indexes a `serde_json::Value` by a position, through its `Index`.
/// Trusted: the element of an array at that position, and `Null` where
/// there is none.
#[verifier::external_body]
pub(crate) fn json_element<'a>(value: &'a serde_json::Value, index: usize) -> (r:
    &'a serde_json::Value)
    ensures
        json_tree(*r) == json_tree(*value).element(index as int),
{
    &value[index]
}

/// Calls `serde_json::Value::as_str`. Trusted: the text of a string, `None`
/// for any other value.
#[verifier::external_body]
pub(crate) fn json_text<'a>(value: &'a serde_json::Value) -> (r: Option<&'a str>)
    ensures
        match r {
            Some(text) => json_tree(*value).text() == Some(text@),
            None => json_tree(*value).text() is None,
        },
{
    value.as_str()
}

/// Formats a `serde_json::Error` by its `Display`. Trusted: the result
/// depends on the error alone.
#[verifier::external_body]
pub(crate) fn json_error_message(error: &serde_json::Error) -> (r: String)
    ensures
        r@ == json_error_text(*error),
{
    error.to_string()
}

/// Builds a `serde_json::Value::Object` of string values and formats it by
/// its `Display`. Trusted: the result depends on the members alone.
#[verifier::external_body]
pub(crate) fn json_object(members: &Vec<(String, String)>) -> (text: String)
    ensures
        text@ == json_object_text(members_view(members@)),
{
    let mut fields = serde_json::Map::new();
    for (key, value) in members.iter() {
        fields.insert(key.clone(), serde_json::Value::String(value.clone()));
    }
    serde_json::Value::Object(fields).to_string()
}

} // verus!
