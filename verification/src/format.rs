//! Matching of format tags.
//!
//! A run has one format. It has none until a seed artifact reports one; the
//! first tag reported is then the run's, and every later tag must be that
//! tag, letter for letter.

use vstd::prelude::*;
use vstd::string::*;
use crate::text::same_text;

verus! {

/// Two format tags match when they are the same string, case included.
pub open spec fn tags_match(required: Seq<char>, candidate: Seq<char>) -> bool {
    required == candidate
}

/// The format of a run whose format was `required`, once a seed artifact
/// has reported `candidate`: the candidate's tag where the run had none or
/// had that very tag, and none where the two differ.
pub open spec fn established(required: Seq<char>, candidate: Seq<char>) -> Option<Seq<char>> {
    if required.len() == 0 || tags_match(required, candidate) {
        Some(candidate)
    } else {
        None
    }
}

/// Decides whether a candidate's format tag is the required one.
pub fn matches(required: &str, candidate: &str) -> (ok: bool)
    ensures
        ok == tags_match(required@, candidate@),
{
    same_text(required, candidate)
}

/// Takes the format tag that a seed artifact reports: the tag becomes the
/// run's format where the run has none yet, is confirmed where it is the
/// run's format, and is refused, with `None`, where it is another.
pub fn establish(required: &str, candidate: &str) -> (format: Option<String>)
    ensures
        match format {
            Some(tag) => established(required@, candidate@) == Some(tag@),
            None => established(required@, candidate@) is None,
        },
{
    if required.is_empty() || matches(required, candidate) {
        Some(candidate.to_owned())
    } else {
        None
    }
}

} // verus!
