//! Reading the roster out of a status response. The outside JSON crate does
//! the document walk behind one trusted wrapper whose outcome is named as a
//! function of the text alone; the exclusion set is then applied, and the
//! result pinned, in verified code.
use vstd::prelude::*;

use crate::names::{has_name, name_views};
use crate::roster::{filter_excluded, not_in};

verus! {

/// The status response held no readable players document.
#[derive(Debug)]
pub enum PollError {
    MalformedStatus,
}

/// What the JSON walk finds in a status document, named: it is a function of
/// the text alone. `None` when the text is not JSON or a present field has
/// the wrong shape (the root or `players` not an object, `sample` not an
/// array, an entry without a string `name`); `Some` of the sample names, in
/// document order, otherwise — an absent `players` or `sample` key reads as
/// no names, not as a failure.
pub uninterp spec fn sample_names_of(text: Seq<char>) -> Option<Seq<Seq<u8>>>;

/// Relies on serde_json: `from_str` and the `as_object`/`get`/`as_array`/
/// `as_str` accessors, which are deterministic in the text and do not panic.
/// The body only walks `players.sample` and converts each name to its bytes.
#[verifier::external_body]
fn extract_sample_names(text: &str) -> (r: Option<Vec<Vec<u8>>>)
    ensures
        (r is Some) == (sample_names_of(text@) is Some),
        r matches Some(names) ==> Some(name_views(names@)) == sample_names_of(text@),
{
    let root: serde_json::Value = serde_json::from_str(text).ok()?;
    let doc = root.as_object()?;
    let players = match doc.get("players") { Some(p) => p.as_object()?, None => return Some(Vec::new()) };
    let sample = match players.get("sample") { Some(s) => s.as_array()?, None => return Some(Vec::new()) };
    let mut names = Vec::new();
    for entry in sample {
        names.push(entry.get("name")?.as_str()?.as_bytes().to_vec());
    }
    Some(names)
}

/// The roster carried by one status response: exactly the names under
/// `players.sample`, in document order, minus the members of the exclusion
/// set; an error exactly when the document is malformed. An excluded name
/// never appears in the result, whatever the raw response held.
pub fn extract_roster(status_text: &str, exclusion: &Vec<Vec<u8>>) -> (r: Result<
    Vec<Vec<u8>>,
    PollError,
>)
    ensures
        (r is Err) == (sample_names_of(status_text@) is None),
        sample_names_of(status_text@) matches Some(ns) ==> (r matches Ok(roster) && name_views(
            roster@,
        ) == ns.filter(not_in(exclusion@))),
        r matches Ok(roster) ==> forall|j: int| #![trigger roster@[j]]
            0 <= j < roster@.len() ==> !has_name(exclusion@, roster@[j]@),
{
    match extract_sample_names(status_text) {
        Some(raw) => Ok(filter_excluded(&raw, exclusion)),
        None => Err(PollError::MalformedStatus),
    }
}

} // verus!
