//! A plain model of a JSON document, and the lookups that the diagnostics
//! need on it.

use vstd::prelude::*;
use crate::text::text_eq;

verus! {

/// A JSON value. A number keeps what it reads as an unsigned 64-bit integer,
/// if it is one; an object keeps its members in the order they were handed
/// over, each key once.
pub enum Json {
    Null,
    Bool(bool),
    Number(Option<u64>),
    Str(String),
    Array(Vec<Json>),
    Object(Vec<(String, Json)>),
}

/// What the JSON parser makes of a text: `None` where the text is no JSON
/// document.
pub uninterp spec fn json_parse(s: Seq<char>) -> Option<Json>;

/// Relies on serde_json::from_str into a `serde_json::Value`: the document
/// read from `s`, or an error where `s` is no JSON document. The result is a
/// function of the text alone (objects come out in key order).
#[verifier::external_body]
pub(crate) fn parse_json(s: &str) -> (r: Option<Json>)
    ensures
        r == json_parse(s@),
{
    serde_json::from_str::<serde_json::Value>(s).ok().map(|v| from_value(&v))
}

/// The parsed document of serde_json, carried through `from_value` only.
#[verifier::external_type_specification]
#[verifier::external_body]
pub struct ExValue(serde_json::Value);

/// Converts a `serde_json::Value` variant by variant into a `Json`; the
/// second half of `parse_json`.
#[verifier::external_body]
fn from_value(v: &serde_json::Value) -> Json {
    match v {
        serde_json::Value::Null => Json::Null,
        serde_json::Value::Bool(b) => Json::Bool(*b),
        serde_json::Value::Number(n) => Json::Number(n.as_u64()),
        serde_json::Value::String(s) => Json::Str(s.clone()),
        serde_json::Value::Array(a) => Json::Array(a.iter().map(from_value).collect()),
        serde_json::Value::Object(m) => Json::Object(
            m.iter().map(|(k, x)| (k.clone(), from_value(x))).collect(),
        ),
    }
}

/// The value of the first member named `key` among `fields`.
pub open spec fn member(fields: Seq<(String, Json)>, key: Seq<char>) -> Option<Json>
    decreases fields.len(),
{
    if fields.len() == 0 {
        None
    } else if fields[0].0@ == key {
        Some(fields[0].1)
    } else {
        member(fields.drop_first(), key)
    }
}

/// `j.key`, where `j` is an object that has such a member.
pub open spec fn field(j: Json, key: Seq<char>) -> Option<Json> {
    match j {
        Json::Object(fields) => member(fields@, key),
        _ => None,
    }
}

/// The text of a string value.
pub open spec fn as_text(j: Option<Json>) -> Option<Seq<char>> {
    match j {
        Some(Json::Str(s)) => Some(s@),
        _ => None,
    }
}

/// The elements of an array value.
pub open spec fn as_items(j: Option<Json>) -> Option<Seq<Json>> {
    match j {
        Some(Json::Array(a)) => Some(a@),
        _ => None,
    }
}

/// The value of an unsigned integer.
pub open spec fn as_count(j: Option<Json>) -> Option<u64> {
    match j {
        Some(Json::Number(n)) => n,
        _ => None,
    }
}

/// `j.key`.
pub fn get<'a>(j: &'a Json, key: &str) -> (r: Option<&'a Json>)
    ensures
        match r {
            Some(x) => field(*j, key@) == Some(*x),
            None => field(*j, key@) is None,
        },
{
    match j {
        Json::Object(fields) => {
            let mut i: usize = 0;
            assert(fields@.skip(0) =~= fields@);
            while i < fields.len()
                invariant
                    i <= fields@.len(),
                    field(*j, key@) == member(fields@, key@),
                    member(fields@, key@) == member(fields@.skip(i as int), key@),
                decreases fields.len() - i,
            {
                assert(fields@.skip(i as int).drop_first() =~= fields@.skip(i + 1));
                assert(fields@.skip(i as int)[0] == fields@[i as int]);
                if text_eq(fields[i].0.as_str(), key) {
                    assert(member(fields@.skip(i as int), key@) == Some(fields@[i as int].1));
                    return Some(&fields[i].1);
                }
                i = i + 1;
            }
            None
        },
        _ => None,
    }
}

/// `j.key`, moved out of `j`.
pub fn take(j: Json, key: &str) -> (r: Option<Json>)
    ensures
        r == field(j, key@),
{
    match j {
        Json::Object(mut fields) => {
            let ghost all = fields@;
            let mut i: usize = 0;
            assert(all.skip(0) =~= all);
            while i < fields.len()
                invariant
                    fields@ == all,
                    field(j, key@) == member(all, key@),
                    i <= fields@.len(),
                    member(all, key@) == member(all.skip(i as int), key@),
                decreases fields.len() - i,
            {
                assert(all.skip(i as int).drop_first() =~= all.skip(i + 1));
                assert(all.skip(i as int)[0] == all[i as int]);
                if text_eq(fields[i].0.as_str(), key) {
                    assert(member(all.skip(i as int), key@) == Some(all[i as int].1));
                    let (_, v) = fields.swap_remove(i);
                    return Some(v);
                }
                i = i + 1;
            }
            None
        },
        _ => None,
    }
}

/// The text of a string value.
pub fn text_of(j: &Json) -> (r: Option<&str>)
    ensures
        match r {
            Some(s) => as_text(Some(*j)) == Some(s@),
            None => as_text(Some(*j)) is None,
        },
{
    match j {
        Json::Str(s) => Some(s.as_str()),
        _ => None,
    }
}

} // verus!
