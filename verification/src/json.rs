//! The persisted form of the mapping: one JSON object whose members map each
//! renamed path to its original path. Reading and writing JSON is done by
//! `figment` and `serde_json`; their contracts here are trusted.

use crate::store::{ascending, pairs_of, Entry, Pair};
use figment::providers::Format;
use std::collections::BTreeMap;
use vstd::prelude::*;

verus! {

/// The error of `serde_json`, carried through as it is.
#[verifier::external_type_specification]
#[verifier::external_body]
pub struct ExJsonError(serde_json::Error);

/// The document of a mapping without entries.
pub const EMPTY_DOCUMENT: &'static str = "{}";

/// The document that `serde_json::to_string_pretty` produces for an object
/// with the given members, in the given order.
pub uninterp spec fn pretty_json(members: Seq<Pair>) -> Seq<char>;

/// The members that `figment` extracts from a JSON text as a map from strings
/// to strings, in the order of the map; `None` where the extraction fails.
pub uninterp spec fn parsed_members(text: Seq<char>) -> Option<Seq<Pair>>;

/// Calls `serde_json::to_string_pretty` on a `BTreeMap` with one member per
/// entry. Trusted: the call succeeds, and the result is the document named
/// by `pretty_json` for these entries. The encoder fails only where its
/// writer fails or a key is no string; it writes to memory here, and every
/// key is a string. For no entries the document is an opening and a
/// closing brace.
#[verifier::external_body]
pub(crate) fn to_pretty_json(entries: &Vec<Entry>) -> (r: Result<String, serde_json::Error>)
    requires
        ascending(pairs_of(entries@)),
    ensures
        r is Ok,
        r matches Ok(document) ==> document@ == pretty_json(pairs_of(entries@)),
        r matches Ok(document) ==> entries@.len() == 0 ==> document@ == EMPTY_DOCUMENT@,
{
    let object: BTreeMap<String, String> =
        entries.iter().map(|e| (e.renamed.clone(), e.original.clone())).collect();
    serde_json::to_string_pretty(&object)
}

/// Formats a `serde_json::Error` with its `Display` impl. Trusted; nothing is
/// claimed about the text.
#[verifier::external_body]
pub(crate) fn json_error_text(error: &serde_json::Error) -> (text: String) {
    error.to_string()
}

/// Calls `figment` to merge a JSON text and extract it as a `BTreeMap` from
/// strings to strings (`Figment::new`, `Json::string`, `Figment::merge`,
/// `Figment::extract`). Trusted: the result is the list named by
/// `parsed_members` for this text, and `None` exactly where the extraction
/// fails.
#[verifier::external_body]
pub(crate) fn parse_members(text: &str) -> (r: Option<Vec<Entry>>)
    ensures
        match r {
            Some(entries) => parsed_members(text@) == Some(pairs_of(entries@)),
            None => parsed_members(text@) is None,
        },
{
    let found: Result<BTreeMap<String, String>, figment::Error> =
        figment::Figment::new().merge(figment::providers::Json::string(text)).extract();
    match found {
        Ok(object) => Some(
            object.into_iter().map(|(renamed, original)| Entry { renamed, original }).collect(),
        ),
        Err(_) => None,
    }
}

} // verus!
