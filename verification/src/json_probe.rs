//! Probes into the JSON payloads that rows and filter lines carry.  What each
//! probe returns is a function of the probed text alone; the outcome is named
//! by an uninterpreted spec function and every caller reasons through that
//! name.

use vstd::prelude::*;

verus! {

/// The outcome of probing a row's `other` payload for
/// `subject_information_content`: a failure when the payload is not valid
/// JSON, otherwise the field's literal JSON text when it is present and not
/// null.
pub uninterp spec fn ic_probe(s: Seq<char>) -> Result<Option<Seq<char>>, ()>;

/// The outcome of probing a compendium line for the length of its
/// `identifiers` array: a failure when the line is not valid JSON, nothing
/// when it has no `identifiers` array, else the array's length.
pub uninterp spec fn identifier_count_probe(s: Seq<char>) -> Result<Option<int>, ()>;

/// The outcome of probing a conflation line for its leading identifier: a
/// failure when the line is not valid JSON or is an array whose first element
/// is not a string, nothing when it is not an array, else the first element.
pub uninterp spec fn conflation_lead_probe(s: Seq<char>) -> Result<Option<Seq<char>>, ()>;

/// The outcome of probing a compendium line for its canonical identifier: a
/// failure when the line is not valid JSON or its `identifiers` array does
/// not start with an object holding a string under `i`, nothing when it has
/// no `identifiers` array, else that leading identifier.
pub uninterp spec fn compendium_lead_probe(s: Seq<char>) -> Result<Option<Seq<char>>, ()>;

/// The view of an exec probe outcome, for stating that it matches a name.
pub open spec fn probe_view(r: Result<Option<String>, ()>) -> Result<Option<Seq<char>>, ()> {
    match r {
        Ok(None) => Ok(None),
        Ok(Some(t)) => Ok(Some(t@)),
        Err(_) => Err(()),
    }
}

/// Relies on `serde_json::from_str` and `serde_json::Value::get` /
/// `Value::to_string`: decodes the payload and reads the literal JSON text of
/// a non-null `subject_information_content` field.  The outcome depends on
/// the characters of the payload alone.
#[verifier::external_body]
pub fn probe_information_content(other: &str) -> (r: Result<Option<String>, ()>)
    ensures
        probe_view(r) == ic_probe(other@),
{
    match serde_json::from_str::<serde_json::Value>(other) {
        Err(_) => Err(()),
        Ok(v) => match v.get("subject_information_content") {
            None => Ok(None),
            Some(serde_json::Value::Null) => Ok(None),
            Some(f) => Ok(Some(f.to_string())),
        },
    }
}

/// Relies on `serde_json::from_str` and `serde_json::Value::get`: decodes the
/// line and counts the elements of its `identifiers` array.  The outcome
/// depends on the characters of the line alone.
#[verifier::external_body]
pub fn probe_identifier_count(line: &str) -> (r: Result<Option<usize>, ()>)
    ensures
        match r {
            Ok(Some(n)) => identifier_count_probe(line@) == Ok::<Option<int>, ()>(
                Some(n as int),
            ),
            Ok(None) => identifier_count_probe(line@) == Ok::<Option<int>, ()>(None),
            Err(_) => identifier_count_probe(line@) is Err,
        },
{
    match serde_json::from_str::<serde_json::Value>(line) {
        Err(_) => Err(()),
        Ok(v) => match v.get("identifiers") {
            Some(serde_json::Value::Array(items)) => Ok(Some(items.len())),
            _ => Ok(None),
        },
    }
}

/// Relies on `serde_json::from_str` and `serde_json::Value`'s variants:
/// decodes the line and, when it is an array, reads its first element as a
/// string.  The outcome depends on the characters of the line alone.
#[verifier::external_body]
pub fn probe_conflation_lead(line: &str) -> (r: Result<Option<String>, ()>)
    ensures
        probe_view(r) == conflation_lead_probe(line@),
{
    match serde_json::from_str::<serde_json::Value>(line) {
        Err(_) => Err(()),
        Ok(serde_json::Value::Array(items)) => match items.first() {
            Some(serde_json::Value::String(s)) => Ok(Some(s.clone())),
            _ => Err(()),
        },
        Ok(_) => Ok(None),
    }
}

/// Relies on `serde_json::from_str` and `serde_json::Value::get`: decodes the
/// line and, when it holds an `identifiers` array, reads the string under `i`
/// of that array's first object.  The outcome depends on the characters of
/// the line alone.
#[verifier::external_body]
pub fn probe_compendium_lead(line: &str) -> (r: Result<Option<String>, ()>)
    ensures
        probe_view(r) == compendium_lead_probe(line@),
{
    match serde_json::from_str::<serde_json::Value>(line) {
        Err(_) => Err(()),
        Ok(v) => match v.get("identifiers") {
            Some(serde_json::Value::Array(items)) => match items.first() {
                Some(first) => match first.get("i") {
                    Some(serde_json::Value::String(s)) => Ok(Some(s.clone())),
                    _ => Err(()),
                },
                None => Err(()),
            },
            _ => Ok(None),
        },
    }
}

} // verus!
