//! JSON documents as the library reads them, and member lookup in them.

use vstd::prelude::*;
use crate::text::{opt_view, str_eq};

verus! {

/// A parsed JSON value. Numbers carry no payload: nothing here reads one.
/// An object keeps its members in the order the parser hands them out.
#[derive(Debug)]
pub enum Json {
    Null,
    Bool(bool),
    Number,
    Str(String),
    Array(Vec<Json>),
    Object(Vec<(String, Json)>),
}

/// What `serde_json` makes of `bytes`, or `None` when they are not JSON.
/// Parsing is serde_json's, so it is a name.
pub uninterp spec fn parsed_json(bytes: Seq<u8>) -> Option<Json>;

/// Converts a serde_json value into a `Json`, variant for variant, with
/// arrays and objects converted member by member in serde_json's order;
/// a number's value is dropped. It only converts.
#[verifier::external_body]
fn json_from_value(v: serde_json::Value) -> Json {
    match v {
        serde_json::Value::Null => Json::Null,
        serde_json::Value::Bool(b) => Json::Bool(b),
        serde_json::Value::Number(_) => Json::Number,
        serde_json::Value::String(s) => Json::Str(s),
        serde_json::Value::Array(items) => Json::Array(items.into_iter().map(json_from_value).collect()),
        serde_json::Value::Object(members) => {
            Json::Object(members.into_iter().map(|(k, m)| (k, json_from_value(m))).collect())
        },
    }
}

/// Parses `bytes` with `serde_json::from_slice` into a `serde_json::Value`,
/// converted one for one into a `Json`; `None` where serde_json refuses the
/// bytes. serde_json's result depends on the bytes alone, so it is named.
#[verifier::external_body]
pub(crate) fn parse_json(bytes: &[u8]) -> (r: Option<Json>)
    ensures
        r == parsed_json(bytes@),
{
    serde_json::from_slice::<serde_json::Value>(bytes).ok().map(json_from_value)
}

/// The value behind an optional reference.
pub open spec fn deref_json(o: Option<&Json>) -> Option<Json> {
    match o {
        Some(j) => Some(*j),
        None => None,
    }
}

/// The value of the first member named `key` among `entries`.
pub open spec fn entries_member(entries: Seq<(String, Json)>, key: Seq<char>) -> Option<Json>
    decreases entries.len(),
{
    if entries.len() == 0 {
        None
    } else if entries[0].0@ == key {
        Some(entries[0].1)
    } else {
        entries_member(entries.drop_first(), key)
    }
}

/// The member `key` of `j` when `j` is an object that has one; `None` for
/// anything else.
pub open spec fn json_member(j: Option<Json>, key: Seq<char>) -> Option<Json> {
    match j {
        Some(Json::Object(entries)) => entries_member(entries@, key),
        _ => None,
    }
}

/// The text of `j` when `j` is a string.
pub open spec fn json_text(j: Option<Json>) -> Option<Seq<char>> {
    match j {
        Some(Json::Str(s)) => Some(s@),
        _ => None,
    }
}

/// The member `key` of `j`, when `j` is an object holding one.
pub fn member<'a>(j: Option<&'a Json>, key: &str) -> (r: Option<&'a Json>)
    ensures
        deref_json(r) == json_member(deref_json(j), key@),
{
    match j {
        Some(Json::Object(entries)) => {
            let mut i: usize = 0;
            proof {
                assert(entries@.subrange(0, entries@.len() as int) =~= entries@);
            }
            while i < entries.len()
                invariant
                    i <= entries@.len(),
                    json_member(deref_json(j), key@) == entries_member(entries@, key@),
                    entries_member(entries@, key@) == entries_member(entries@.subrange(i as int, entries@.len() as int), key@),
                decreases entries@.len() - i,
            {
                let ghost rest = entries@.subrange(i as int, entries@.len() as int);
                proof {
                    assert(rest[0] == entries@[i as int]);
                    assert(rest.drop_first() =~= entries@.subrange(i + 1, entries@.len() as int));
                }
                if str_eq(entries[i].0.as_str(), key) {
                    proof {
                        assert(rest.len() > 0 && rest[0].0@ == key@);
                    }
                    return Some(&entries[i].1);
                }
                i = i + 1;
            }
            None
        },
        _ => None,
    }
}

/// The text of `j`, when `j` is a string.
pub fn text_of(j: Option<&Json>) -> (r: Option<String>)
    ensures
        opt_view(r) == json_text(deref_json(j)),
{
    match j {
        Some(Json::Str(s)) => Some(s.clone()),
        _ => None,
    }
}

} // verus!
