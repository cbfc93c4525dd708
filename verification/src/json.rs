//! JSON documents as plain values, read and written through `serde_json`.

use crate::text::{compare, Order};
use vstd::prelude::*;

verus! {

/// `serde_json::Number`, carried through as an opaque value.
#[verifier::external_type_specification]
#[verifier::external_body]
pub struct ExNumber(serde_json::Number);

/// `serde_json::Value`, the form in which `serde_json` reads and writes a
/// document; opaque here.
#[verifier::external_type_specification]
#[verifier::external_body]
pub struct ExValue(serde_json::Value);

/// A JSON document. An object keeps its members as a list of pairs; where a
/// key occurs more than once the last occurrence counts.
#[derive(Debug, PartialEq)]
pub enum Json {
    Null,
    Bool(bool),
    Number(serde_json::Number),
    Text(String),
    List(Vec<Json>),
    Object(Vec<(String, Json)>),
}

/// The document that `serde_json` reads from `bytes`, or `None` where it
/// rejects them.
pub uninterp spec fn parsed(bytes: Seq<u8>) -> Option<Json>;

/// The bytes that `serde_json` writes for `doc` in its compact form, or `None`
/// where it reports an error.
pub uninterp spec fn rendered(doc: Json) -> Option<Seq<u8>>;

/// Converts a `serde_json::Value` into a `Json`, variant by variant. Nothing
/// is claimed of the result here; `parse` names what it returns.
#[verifier::external_body]
fn from_value(value: serde_json::Value) -> Json {
    match value {
        serde_json::Value::Null => Json::Null,
        serde_json::Value::Bool(b) => Json::Bool(b),
        serde_json::Value::Number(n) => Json::Number(n),
        serde_json::Value::String(s) => Json::Text(s),
        serde_json::Value::Array(items) => Json::List(items.into_iter().map(from_value).collect()),
        serde_json::Value::Object(members) => Json::Object(
            members.into_iter().map(|(k, v)| (k, from_value(v))).collect(),
        ),
    }
}

/// Converts a `Json` into a `serde_json::Value`, variant by variant. Nothing
/// is claimed of the result here; `render` names what it returns.
#[verifier::external_body]
fn to_value(doc: &Json) -> serde_json::Value {
    match doc {
        Json::Null => serde_json::Value::Null,
        Json::Bool(b) => serde_json::Value::Bool(*b),
        Json::Number(n) => serde_json::Value::Number(n.clone()),
        Json::Text(s) => serde_json::Value::String(s.clone()),
        Json::List(items) => serde_json::Value::Array(items.iter().map(to_value).collect()),
        Json::Object(members) => serde_json::Value::Object(
            members.iter().map(|(k, v)| (k.clone(), to_value(v))).collect(),
        ),
    }
}

/// Calls `serde_json::from_slice` for a `serde_json::Value`. The contract
/// claims only that the outcome is a function of the bytes: the parsed
/// document, or `None` where the bytes are not one JSON document.
#[verifier::external_body]
pub(crate) fn parse(bytes: &[u8]) -> (r: Option<Json>)
    ensures
        r == parsed(bytes@),
{
    match serde_json::from_slice::<serde_json::Value>(bytes) {
        Ok(value) => Some(from_value(value)),
        Err(_) => None,
    }
}

/// Calls `serde_json::to_vec` on the document as a `serde_json::Value`. The
/// contract claims only that the outcome is a function of the document.
#[verifier::external_body]
pub(crate) fn render(doc: &Json) -> (r: Option<Vec<u8>>)
    ensures
        match rendered(*doc) {
            Some(bytes) => r.is_some() && r.unwrap()@ == bytes,
            None => r.is_none(),
        },
{
    match serde_json::to_vec(&to_value(doc)) {
        Ok(bytes) => Some(bytes),
        Err(_) => None,
    }
}

/// The value of the member `name` among `members`: that of its last
/// occurrence, or `None` where no member has that name.
pub open spec fn field_of(members: Seq<(String, Json)>, name: Seq<char>) -> Option<Json>
    decreases members.len(),
{
    if members.len() == 0 {
        None
    } else if members.last().0@ == name {
        Some(members.last().1)
    } else {
        field_of(members.drop_last(), name)
    }
}

/// The value behind an optional reference.
pub open spec fn owned(value: Option<&Json>) -> Option<Json> {
    match value {
        Some(doc) => Some(*doc),
        None => None,
    }
}

/// Looks up the member `name` of an object.
pub fn find_field<'a>(members: &'a Vec<(String, Json)>, name: &str) -> (r: Option<&'a Json>)
    ensures
        owned(r) == field_of(members@, name@),
{
    let mut i: usize = members.len();
    proof {
        assert(members@.subrange(0, i as int) =~= members@);
    }
    while i > 0
        invariant
            i <= members.len(),
            field_of(members@, name@) == field_of(members@.subrange(0, i as int), name@),
        decreases i,
    {
        i -= 1;
        let ghost front = members@.subrange(0, i as int + 1);
        proof {
            assert(front.last() == members@[i as int]);
            assert(front.drop_last() =~= members@.subrange(0, i as int));
        }
        if compare(members[i].0.as_str(), name) == Order::Same {
            return Some(&members[i].1);
        }
    }
    None
}

} // verus!
