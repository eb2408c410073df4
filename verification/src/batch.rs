//! Shaping the per-path results of a batch file read. Each requested path
//! is read independently; failures stay per-path and never fail the
//! request. Results are keyed by the exact path string the caller
//! supplied, so completion order does not matter.

use vstd::prelude::*;
use vstd::string::*;

verus! {

/// How many reads a batch request keeps in flight at once.
pub const BATCH_CONCURRENCY_LIMIT: usize = 50;

/// The outcome of one path's resolution and read, as the caller found it.
#[derive(Debug, Clone, PartialEq, Eq)]
pub enum ReadOutcome {
    ResolveFailed { error: String },
    NotAFile,
    ReadFailed { error: String },
    ReadOk { content: String },
}

/// The mathematical value of a [`ReadOutcome`].
#[verifier::ext_equal]
pub ghost enum ReadOutcomeV {
    ResolveFailed { error: Seq<char> },
    NotAFile,
    ReadFailed { error: Seq<char> },
    ReadOk { content: Seq<char> },
}

impl View for ReadOutcome {
    type V = ReadOutcomeV;

    open spec fn view(&self) -> ReadOutcomeV {
        match self {
            ReadOutcome::ResolveFailed { error } => ReadOutcomeV::ResolveFailed { error: error@ },
            ReadOutcome::NotAFile => ReadOutcomeV::NotAFile,
            ReadOutcome::ReadFailed { error } => ReadOutcomeV::ReadFailed { error: error@ },
            ReadOutcome::ReadOk { content } => ReadOutcomeV::ReadOk { content: content@ },
        }
    }
}

/// One path's entry in the batch response.
#[derive(Debug, Clone, PartialEq, Eq)]
pub struct BatchFileResult {
    pub success: bool,
    pub content: Option<String>,
    pub error: Option<String>,
}

/// The mathematical value of a [`BatchFileResult`].
#[verifier::ext_equal]
pub ghost struct BatchFileResultV {
    pub success: bool,
    pub content: Option<Seq<char>>,
    pub error: Option<Seq<char>>,
}

impl View for BatchFileResult {
    type V = BatchFileResultV;

    open spec fn view(&self) -> BatchFileResultV {
        BatchFileResultV {
            success: self.success,
            content: match &self.content {
                Some(c) => Some(c@),
                None => None,
            },
            error: match &self.error {
                Some(e) => Some(e@),
                None => None,
            },
        }
    }
}

/// The entry a read outcome turns into: success carries the content and
/// no error; each failure carries its message and no content.
pub open spec fn spec_batch_result(o: ReadOutcomeV) -> BatchFileResultV {
    match o {
        ReadOutcomeV::ResolveFailed { error } => BatchFileResultV {
            success: false,
            content: None,
            error: Some("Invalid path: "@ + error),
        },
        ReadOutcomeV::NotAFile => BatchFileResultV {
            success: false,
            content: None,
            error: Some("Path is not a file"@),
        },
        ReadOutcomeV::ReadFailed { error } => BatchFileResultV {
            success: false,
            content: None,
            error: Some("Failed to read file: "@ + error),
        },
        ReadOutcomeV::ReadOk { content } => BatchFileResultV {
            success: true,
            content: Some(content),
            error: None,
        },
    }
}

/// Rejects an empty batch request; any non-empty list of paths is
/// accepted.
pub fn check_batch_paths(paths: &Vec<String>) -> (r: Result<(), String>)
    ensures
        r is Ok <==> paths@.len() > 0,
        r matches Err(m) ==> m@ == "Paths array is required and cannot be empty"@,
{
    if paths.len() == 0 {
        Err("Paths array is required and cannot be empty".to_owned())
    } else {
        Ok(())
    }
}

fn prefixed_msg(prefix: &str, error: &str) -> (r: String)
    ensures
        r@ == prefix@ + error@,
{
    let mut m = String::new();
    m.append(prefix);
    m.append(error);
    m
}

/// Turns one path's read outcome into its response entry.
pub fn batch_result(o: ReadOutcome) -> (r: BatchFileResult)
    ensures
        r@ == spec_batch_result(o@),
{
    match o {
        ReadOutcome::ResolveFailed { error } => BatchFileResult {
            success: false,
            content: None,
            error: Some(prefixed_msg("Invalid path: ", error.as_str())),
        },
        ReadOutcome::NotAFile => BatchFileResult {
            success: false,
            content: None,
            error: Some("Path is not a file".to_owned()),
        },
        ReadOutcome::ReadFailed { error } => BatchFileResult {
            success: false,
            content: None,
            error: Some(prefixed_msg("Failed to read file: ", error.as_str())),
        },
        ReadOutcome::ReadOk { content } => BatchFileResult {
            success: true,
            content: Some(content),
            error: None,
        },
    }
}

/// Appends one path's entry to the response mapping, keyed by the exact
/// string the caller supplied for it; earlier entries are untouched.
pub fn insert_batch_result(
    results: &mut Vec<(String, BatchFileResult)>,
    path: String,
    outcome: ReadOutcome,
)
    ensures
        final(results)@.len() == old(results)@.len() + 1,
        final(results)@[old(results)@.len() as int].0@ == path@,
        final(results)@[old(results)@.len() as int].1@ == spec_batch_result(outcome@),
        forall|i: int| 0 <= i < old(results)@.len() ==> final(results)@[i] == old(results)@[i],
{
    let entry = batch_result(outcome);
    results.push((path, entry));
}

} // verus!
