//! JSON documents as plain data.
//!
//! Parsing is left to `serde_json`; what it returns is copied into [`Json`],
//! a tree of plain values that the schema checks of this crate can read.

use vstd::prelude::*;
use crate::text::same_text;

verus! {

/// A JSON value.
#[derive(Debug)]
pub enum Json {
    Null,
    Flag(bool),
    /// A number; `Some` when it is an integer that fits in 64 signed bits.
    Number(Option<i64>),
    Text(String),
    List(Vec<Json>),
    /// An object: its members, each with its key.
    Record(Vec<(String, Json)>),
}

/// `serde_json::Value`, carried from the parser to the copy as an opaque
/// value.
#[verifier::external_type_specification]
#[verifier::external_body]
pub struct ExJsonValue(serde_json::Value);

/// The document that `bytes` spell out, or `None` when they are not one
/// JSON value, surrounded by nothing but white space.
pub uninterp spec fn json_document(bytes: Seq<u8>) -> Option<Json>;

/// The tree that holds what a parsed value holds.
pub uninterp spec fn json_tree(value: serde_json::Value) -> Json;

/// `serde_json::from_slice`, to a `serde_json::Value`. A failure to parse is
/// `None`; a value that was parsed stands for the document `json_document`.
#[verifier::external_body]
fn parse_value(bytes: &[u8]) -> (r: Option<serde_json::Value>)
    ensures
        r is None <==> json_document(bytes@) is None,
        r matches Some(value) ==> json_document(bytes@) == Some(json_tree(value)),
{
    serde_json::from_slice::<serde_json::Value>(bytes).ok()
}

/// Copies a `serde_json::Value` into a [`Json`], variant by variant: a number
/// through `Number::as_i64`, an object's members in the order in which
/// `Map::iter` yields them.
#[verifier::external_body]
fn tree_of(value: &serde_json::Value) -> (r: Json)
    ensures
        r == json_tree(*value),
{
    match value {
        serde_json::Value::Null => Json::Null,
        serde_json::Value::Bool(b) => Json::Flag(*b),
        serde_json::Value::Number(n) => Json::Number(n.as_i64()),
        serde_json::Value::String(s) => Json::Text(s.clone()),
        serde_json::Value::Array(items) => Json::List(items.iter().map(tree_of).collect()),
        serde_json::Value::Object(members) => Json::Record(
            members.iter().map(|(k, v)| (k.clone(), tree_of(v))).collect(),
        ),
    }
}

/// The first member of `members` whose key is `key`.
pub open spec fn find(members: Seq<(String, Json)>, key: Seq<char>) -> Option<Json>
    decreases members.len(),
{
    if members.len() == 0 {
        None
    } else if members[0].0@ == key {
        Some(members[0].1)
    } else {
        find(members.drop_first(), key)
    }
}

impl Json {
    /// The member `key` of an object; `None` for a missing member and for a
    /// value that is no object.
    pub open spec fn member(self, key: Seq<char>) -> Option<Json> {
        match self {
            Json::Record(members) => find(members@, key),
            _ => None,
        }
    }

    /// Parses `bytes` as one JSON document.
    pub fn parse(bytes: &[u8]) -> (r: Option<Json>)
        ensures
            r == json_document(bytes@),
    {
        match parse_value(bytes) {
            Some(value) => Some(tree_of(&value)),
            None => None,
        }
    }

    /// Looks up the member `key` of an object.
    pub fn get(&self, key: &str) -> (r: Option<&Json>)
        ensures
            r is None <==> self.member(key@) is None,
            r matches Some(found) ==> self.member(key@) == Some(*found),
    {
        match self {
            Json::Record(members) => {
                let mut i: usize = 0;
                assert(members@.skip(0) == members@);
                while i < members.len()
                    invariant
                        i <= members.len(),
                        self.member(key@) == find(members@.skip(i as int), key@),
                    decreases members.len() - i,
                {
                    let ghost rest = members@.skip(i as int);
                    assert(rest[0] == members@[i as int]);
                    assert(rest.drop_first() == members@.skip(i + 1));
                    if same_text(members[i].0.as_str(), key) {
                        return Some(&members[i].1);
                    }
                    i += 1;
                }
                None
            },
            _ => None,
        }
    }
}

} // verus!
