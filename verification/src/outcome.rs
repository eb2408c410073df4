//! Folding per-record results into the aggregated outcome of one patch
//! request: the ordered list of applied relative paths and the ordered
//! list of detail entries. A path joins the applied list only when the
//! caller reports that the disk action succeeded; a failure appends a
//! detail entry instead, and earlier successes stand (no rollback).

use vstd::prelude::*;
use vstd::string::*;
use crate::patch::StepV;
use crate::patch::RecordStep;

verus! {

/// What the caller reports after performing a [`RecordStep`]'s disk
/// action.
#[derive(Debug, Clone, PartialEq, Eq)]
pub enum IoOutcome {
    Done,
    MkdirFailed { error: String },
    WriteFailed { error: String },
    RemoveFailed { error: String },
}

/// The mathematical value of an [`IoOutcome`].
#[verifier::ext_equal]
pub ghost enum IoV {
    Done,
    MkdirFailed { error: Seq<char> },
    WriteFailed { error: Seq<char> },
    RemoveFailed { error: Seq<char> },
}

impl View for IoOutcome {
    type V = IoV;

    open spec fn view(&self) -> IoV {
        match self {
            IoOutcome::Done => IoV::Done,
            IoOutcome::MkdirFailed { error } => IoV::MkdirFailed { error: error@ },
            IoOutcome::WriteFailed { error } => IoV::WriteFailed { error: error@ },
            IoOutcome::RemoveFailed { error } => IoV::RemoveFailed { error: error@ },
        }
    }
}

/// The reports that performing a given step can produce: a rejection asks
/// for no disk action, only a creation makes directories, and only a
/// removal can fail to remove.
pub open spec fn io_matches_step(step: StepV, io: IoV) -> bool {
    match step {
        StepV::Reject { .. } => io is Done,
        StepV::WriteCreate { .. } => io is Done || io is MkdirFailed || io is WriteFailed,
        StepV::WriteModify { .. } => io is Done || io is WriteFailed,
        StepV::RemoveFile { .. } => io is Done || io is RemoveFailed,
    }
}

/// The accumulated outcome of one patch request.
pub struct PatchOutcome {
    pub applied_files: Vec<String>,
    pub details: Vec<String>,
}

/// The mathematical value of a [`PatchOutcome`].
#[verifier::ext_equal]
pub ghost struct OutcomeV {
    pub applied: Seq<Seq<char>>,
    pub details: Seq<Seq<char>>,
}

impl View for PatchOutcome {
    type V = OutcomeV;

    open spec fn view(&self) -> OutcomeV {
        OutcomeV {
            applied: self.applied_files@.map_values(|p: String| p@),
            details: self.details@.map_values(|d: String| d@),
        }
    }
}

/// The applied list after one record: extended by the step's path exactly
/// when a disk action was asked for and succeeded.
pub open spec fn spec_applied_after(applied: Seq<Seq<char>>, step: StepV, io: IoV) -> Seq<
    Seq<char>,
> {
    match step {
        StepV::Reject { .. } => applied,
        StepV::WriteCreate { path, .. } => if io is Done {
            applied.push(path)
        } else {
            applied
        },
        StepV::WriteModify { path, .. } => if io is Done {
            applied.push(path)
        } else {
            applied
        },
        StepV::RemoveFile { path } => if io is Done {
            applied.push(path)
        } else {
            applied
        },
    }
}

/// The detail list after one record: extended by the rejection's entry,
/// or by the message for the disk failure the caller reported.
pub open spec fn spec_details_after(details: Seq<Seq<char>>, step: StepV, io: IoV) -> Seq<
    Seq<char>,
> {
    match step {
        StepV::Reject { detail } => details.push(detail),
        StepV::WriteCreate { path, .. } => match io {
            IoV::MkdirFailed { error } => details.push(
                "Failed to create directory for "@ + path + ": "@ + error,
            ),
            IoV::WriteFailed { error } => details.push(
                "Failed to write new file "@ + path + ": "@ + error,
            ),
            _ => details,
        },
        StepV::WriteModify { path, .. } => match io {
            IoV::WriteFailed { error } => details.push(
                "Failed to write modified file "@ + path + ": "@ + error,
            ),
            _ => details,
        },
        StepV::RemoveFile { path } => match io {
            IoV::RemoveFailed { error } => details.push(
                "Failed to delete file "@ + path + ": "@ + error,
            ),
            _ => details,
        },
    }
}

impl PatchOutcome {
    /// The empty outcome a request starts from.
    pub fn new() -> (r: PatchOutcome)
        ensures
            r@.applied.len() == 0,
            r@.details.len() == 0,
    {
        let r = PatchOutcome { applied_files: Vec::new(), details: Vec::new() };
        proof {
            assert(r@.applied =~= Seq::<Seq<char>>::empty());
            assert(r@.details =~= Seq::<Seq<char>>::empty());
        }
        r
    }

    /// The request-level success flag: clean exactly when no record left
    /// a detail entry, independently of how many files were applied.
    pub fn overall_success(&self) -> (r: bool)
        ensures
            r == (self@.details.len() == 0),
    {
        self.details.len() == 0
    }
}

fn push_applied(outcome: &mut PatchOutcome, path: String)
    ensures
        final(outcome)@.applied == old(outcome)@.applied.push(path@),
        final(outcome)@.details == old(outcome)@.details,
{
    outcome.applied_files.push(path);
    proof {
        assert(final(outcome)@.applied =~= old(outcome)@.applied.push(path@));
    }
}

fn push_detail(outcome: &mut PatchOutcome, detail: String)
    ensures
        final(outcome)@.applied == old(outcome)@.applied,
        final(outcome)@.details == old(outcome)@.details.push(detail@),
{
    outcome.details.push(detail);
    proof {
        assert(final(outcome)@.details =~= old(outcome)@.details.push(detail@));
    }
}

fn io_fail_msg(prefix: &str, path: &str, error: &str) -> (r: String)
    ensures
        r@ == prefix@ + path@ + ": "@ + error@,
{
    let mut m = String::new();
    m.append(prefix);
    m.append(path);
    m.append(": ");
    m.append(error);
    m
}

/// Folds one record's step and the caller's report of its disk action
/// into the request outcome. Processing always continues to the next
/// record afterwards, whatever this one did.
pub fn record_step_result(outcome: &mut PatchOutcome, step: RecordStep, io: &IoOutcome)
    requires
        io_matches_step(step@, io@),
    ensures
        final(outcome)@.applied == spec_applied_after(old(outcome)@.applied, step@, io@),
        final(outcome)@.details == spec_details_after(old(outcome)@.details, step@, io@),
{
    match step {
        RecordStep::Reject { detail } => {
            push_detail(outcome, detail);
        },
        RecordStep::WriteCreate { path, .. } => match io {
            IoOutcome::Done => push_applied(outcome, path),
            IoOutcome::MkdirFailed { error } => push_detail(
                outcome,
                io_fail_msg("Failed to create directory for ", path.as_str(), error.as_str()),
            ),
            IoOutcome::WriteFailed { error } => push_detail(
                outcome,
                io_fail_msg("Failed to write new file ", path.as_str(), error.as_str()),
            ),
            IoOutcome::RemoveFailed { .. } => {},
        },
        RecordStep::WriteModify { path, .. } => match io {
            IoOutcome::WriteFailed { error } => push_detail(
                outcome,
                io_fail_msg("Failed to write modified file ", path.as_str(), error.as_str()),
            ),
            _ => push_applied(outcome, path),
        },
        RecordStep::RemoveFile { path } => match io {
            IoOutcome::RemoveFailed { error } => push_detail(
                outcome,
                io_fail_msg("Failed to delete file ", path.as_str(), error.as_str()),
            ),
            _ => push_applied(outcome, path),
        },
    }
}

} // verus!
