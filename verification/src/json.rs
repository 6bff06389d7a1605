//! JSON texts, taken apart one level at a time.
//!
//! A class definition is a JSON document.  Reading JSON is left to
//! `serde_json`; this module names what it returns, and nothing in the crate
//! is proved about those results beyond their being a function of the text.

use vstd::prelude::*;
use std::collections::BTreeMap;
use serde_json::value::RawValue;

verus! {

/// The members of the JSON object that `text` holds, each with its name and
/// the JSON text of its value; `None` where `text` is not one JSON object.
pub uninterp spec fn json_object(text: Seq<u8>) -> Option<Seq<(Seq<char>, Seq<u8>)>>;

/// The JSON texts of the elements of the JSON array that `text` holds, in
/// order; `None` where `text` is not one JSON array.
pub uninterp spec fn json_array(text: Seq<u8>) -> Option<Seq<Seq<u8>>>;

/// The string that `text` holds, escapes resolved; `None` where `text` is
/// not one JSON string.
pub uninterp spec fn json_string(text: Seq<u8>) -> Option<Seq<char>>;

/// The number that `text` holds; `None` where `text` is not one JSON number
/// that is a whole number between 0 and 2^64 - 1.
pub uninterp spec fn json_u64(text: Seq<u8>) -> Option<u64>;

/// The members of an object as mathematical values.
pub open spec fn members_view(members: Seq<(String, Vec<u8>)>) -> Seq<(Seq<char>, Seq<u8>)> {
    Seq::new(members.len(), |i: int| (members[i].0@, members[i].1@))
}

/// The elements of an array as mathematical values.
pub open spec fn texts_view(texts: Seq<Vec<u8>>) -> Seq<Seq<u8>> {
    Seq::new(texts.len(), |i: int| texts[i]@)
}

/// Reads a JSON object with `serde_json::from_slice`, asking for a map from
/// strings to raw values, and hands out the members of the map with the
/// texts of their values.  The contract claims only that the outcome is a
/// function of the text, which [`json_object`] names.
#[verifier::external_body]
pub(crate) fn parse_object(text: &[u8]) -> (r: Option<Vec<(String, Vec<u8>)>>)
    ensures
        json_object(text@) == match r {
            Some(members) => Some(members_view(members@)),
            None => None,
        },
{
    match serde_json::from_slice::<BTreeMap<String, Box<RawValue>>>(text) {
        Ok(members) => Some(
            members.into_iter().map(|(name, value)| (name, value.get().as_bytes().to_vec())).collect(),
        ),
        Err(_) => None,
    }
}

/// Reads a JSON array with `serde_json::from_slice`, asking for a vector of
/// raw values, and hands out the texts of the values.  The contract claims
/// only that the outcome is a function of the text, which [`json_array`]
/// names.
#[verifier::external_body]
pub(crate) fn parse_array(text: &[u8]) -> (r: Option<Vec<Vec<u8>>>)
    ensures
        json_array(text@) == match r {
            Some(texts) => Some(texts_view(texts@)),
            None => None,
        },
{
    match serde_json::from_slice::<Vec<Box<RawValue>>>(text) {
        Ok(elements) => Some(
            elements.into_iter().map(|value| value.get().as_bytes().to_vec()).collect(),
        ),
        Err(_) => None,
    }
}

/// Reads a JSON string with `serde_json::from_slice`.  The contract claims
/// only that the outcome is a function of the text, which [`json_string`]
/// names.
#[verifier::external_body]
pub(crate) fn parse_string(text: &[u8]) -> (r: Option<String>)
    ensures
        json_string(text@) == match r {
            Some(string) => Some(string@),
            None => None,
        },
{
    match serde_json::from_slice::<String>(text) {
        Ok(string) => Some(string),
        Err(_) => None,
    }
}

/// Reads an unsigned number with `serde_json::from_slice`.  The contract
/// claims only that the outcome is a function of the text, which
/// [`json_u64`] names.
#[verifier::external_body]
pub(crate) fn parse_u64(text: &[u8]) -> (r: Option<u64>)
    ensures
        r == json_u64(text@),
{
    match serde_json::from_slice::<u64>(text) {
        Ok(number) => Some(number),
        Err(_) => None,
    }
}

} // verus!
