//! Reading JSON documents, through `serde_json`.
//!
//! A parsed document is a `serde_json::Value`. What such a value holds is
//! described by a [`JsonModel`], a tree of mathematical values; the rules of
//! this crate are stated over that tree. The value itself is looked into
//! through four questions: the member of an object under a key, the text of a
//! string, the value of an unsigned number, the items of an array.

use vstd::prelude::*;
use vstd::string::*;

verus! {

/// What a JSON value holds.
pub enum JsonModel {
    Null,
    Bool(bool),
    /// A number that is an integer from 0 to `u64::MAX`.
    Unsigned(u64),
    /// Any other number.
    OtherNumber,
    Text(Seq<char>),
    List(Seq<JsonModel>),
    Object(Map<Seq<char>, JsonModel>),
}

impl JsonModel {
    /// The member of an object under `key`; `None` where this is no object or
    /// has no such member.
    pub open spec fn member(self, key: Seq<char>) -> Option<JsonModel> {
        match self {
            JsonModel::Object(members) => if members.contains_key(key) {
                Some(members[key])
            } else {
                None
            },
            _ => None,
        }
    }

    /// The text of a string; `None` where this is no string.
    pub open spec fn text(self) -> Option<Seq<char>> {
        match self {
            JsonModel::Text(text) => Some(text),
            _ => None,
        }
    }

    /// The value of an unsigned number; `None` where this is none.
    pub open spec fn unsigned(self) -> Option<u64> {
        match self {
            JsonModel::Unsigned(n) => Some(n),
            _ => None,
        }
    }

    /// The items of an array; `None` where this is no array.
    pub open spec fn items(self) -> Option<Seq<JsonModel>> {
        match self {
            JsonModel::List(items) => Some(items),
            _ => None,
        }
    }

    /// The text of the member under `key`.
    pub open spec fn text_member(self, key: Seq<char>) -> Option<Seq<char>> {
        match self.member(key) {
            Some(found) => found.text(),
            None => None,
        }
    }

    /// The items of the member under `key`.
    pub open spec fn items_member(self, key: Seq<char>) -> Option<Seq<JsonModel>> {
        match self.member(key) {
            Some(found) => found.items(),
            None => None,
        }
    }
}

/// `serde_json::Value`, a parsed JSON document or a part of one. Nothing of
/// its inside is known here but what [`json_tree`] says.
#[verifier::external_type_specification]
#[verifier::external_body]
pub struct ExValue(serde_json::Value);

/// What a `serde_json::Value` holds.
pub uninterp spec fn json_tree(value: serde_json::Value) -> JsonModel;

/// What the document holds that `text` spells; `None` where it spells none.
pub uninterp spec fn json_document(text: Seq<char>) -> Option<JsonModel>;

/// What the values of a list hold.
pub open spec fn json_trees(values: Seq<serde_json::Value>) -> Seq<JsonModel> {
    Seq::new(values.len(), |i: int| json_tree(values[i]))
}

/// `serde_json::from_str`, read as a `serde_json::Value`. Claims that what
/// the parsed value holds depends on the text alone, and so does whether
/// there is one.
#[verifier::external_body]
pub(crate) fn parse_document(text: &str) -> (r: Option<serde_json::Value>)
    ensures
        match r {
            Some(document) => json_document(text@) == Some(json_tree(document)),
            None => json_document(text@) is None,
        },
{
    serde_json::from_str::<serde_json::Value>(text).ok()
}

/// `serde_json::Value::get` with a string key: the value under that key
/// where `value` is an object that has it, and nothing otherwise.
#[verifier::external_body]
pub(crate) fn member<'a>(
    value: &'a serde_json::Value,
    key: &str,
) -> (r: Option<&'a serde_json::Value>)
    ensures
        match r {
            Some(found) => json_tree(*value).member(key@) == Some(json_tree(*found)),
            None => json_tree(*value).member(key@) is None,
        },
{
    value.get(key)
}

/// `serde_json::Value::as_str`: the text where `value` is a string, and
/// nothing otherwise.
#[verifier::external_body]
pub(crate) fn as_text<'a>(value: &'a serde_json::Value) -> (r: Option<&'a str>)
    ensures
        match r {
            Some(text) => json_tree(*value).text() == Some(text@),
            None => json_tree(*value).text() is None,
        },
{
    value.as_str()
}

/// `serde_json::Value::as_u64`: the number where `value` is an integer from
/// 0 to `u64::MAX`, and nothing otherwise.
#[verifier::external_body]
pub(crate) fn as_unsigned(value: &serde_json::Value) -> (r: Option<u64>)
    ensures
        r == json_tree(*value).unsigned(),
{
    value.as_u64()
}

/// `serde_json::Value::as_array`: the items where `value` is an array, and
/// nothing otherwise.
#[verifier::external_body]
pub(crate) fn as_items<'a>(
    value: &'a serde_json::Value,
) -> (r: Option<&'a Vec<serde_json::Value>>)
    ensures
        match r {
            Some(items) => json_tree(*value).items() == Some(json_trees(items@)),
            None => json_tree(*value).items() is None,
        },
{
    value.as_array()
}

/// The text of the member of `value` under `key`.
pub(crate) fn text_at<'a>(value: &'a serde_json::Value, key: &str) -> (r: Option<&'a str>)
    ensures
        match r {
            Some(text) => json_tree(*value).text_member(key@) == Some(text@),
            None => json_tree(*value).text_member(key@) is None,
        },
{
    match member(value, key) {
        Some(found) => as_text(found),
        None => None,
    }
}

/// The items of the member of `value` under `key`.
pub(crate) fn items_at<'a>(
    value: &'a serde_json::Value,
    key: &str,
) -> (r: Option<&'a Vec<serde_json::Value>>)
    ensures
        match r {
            Some(items) => json_tree(*value).items_member(key@) == Some(json_trees(items@)),
            None => json_tree(*value).items_member(key@) is None,
        },
{
    match member(value, key) {
        Some(found) => as_items(found),
        None => None,
    }
}

} // verus!
