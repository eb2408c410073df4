//! Applying per-file change records: classifying each record as a
//! creation, deletion or modification, computing the patched content with
//! fuzzy hunk matching, and folding per-record outcomes into the applied
//! list and the detail list of one request.
//!
//! Neither the filesystem nor the fuzzy patch engine is touched here.
//! The caller gathers the target file's state and asks [`decide_step`]
//! what to do; where the answer calls for the engine, the caller runs it
//! on the returned [`EngineRequest`] — catching any halt of the engine's
//! own runtime checks at that per-record boundary — and hands the
//! [`EngineReport`] to [`settle_engine_report`], which is verified for
//! every report value. The caller then performs the decided disk action
//! and reports it to [`record_step_result`]. One bad record never blocks
//! the ones after it: every failure becomes a detail entry and
//! processing continues.

use vstd::prelude::*;
use vstd::string::*;
use crate::split::{FilePatchRecord, RecordV};
use crate::paths::{spec_strip_path, strip_path};
use crate::screen::{spec_hunk_safe, hunk_text_safe};

verus! {

/// The sentinel path that marks a missing side of a change record.
pub open spec fn dev_null() -> Seq<char> {
    "/dev/null"@
}

fn is_dev_null(s: &str) -> (r: bool)
    ensures
        r == (s@ == dev_null()),
{
    proof {
        reveal_strlit("/dev/null");
    }
    let r = s.unicode_len() == 9 && s.get_char(0) == '/' && s.get_char(1) == 'd'
        && s.get_char(2) == 'e' && s.get_char(3) == 'v' && s.get_char(4) == '/'
        && s.get_char(5) == 'n' && s.get_char(6) == 'u' && s.get_char(7) == 'l'
        && s.get_char(8) == 'l';
    proof {
        if r {
            assert(s@ =~= dev_null());
        }
    }
    r
}

/// The operation a change record asks for, with paths already stripped.
#[derive(Debug, Clone, PartialEq, Eq)]
pub enum PatchOp {
    Create { path: String, hunk_text: String },
    Delete { path: String },
    Modify { path: String, hunk_text: String },
}

/// The mathematical value of a [`PatchOp`].
#[verifier::ext_equal]
pub ghost enum OpV {
    Create { path: Seq<char>, hunk_text: Seq<char> },
    Delete { path: Seq<char> },
    Modify { path: Seq<char>, hunk_text: Seq<char> },
}

impl View for PatchOp {
    type V = OpV;

    open spec fn view(&self) -> OpV {
        match self {
            PatchOp::Create { path, hunk_text } => OpV::Create {
                path: path@,
                hunk_text: hunk_text@,
            },
            PatchOp::Delete { path } => OpV::Delete { path: path@ },
            PatchOp::Modify { path, hunk_text } => OpV::Modify {
                path: path@,
                hunk_text: hunk_text@,
            },
        }
    }
}

/// A record side after conventional one-level path stripping; the sentinel
/// passes through unchanged.
pub open spec fn spec_strip_side(p: Seq<char>) -> Seq<char> {
    if p == dev_null() {
        p
    } else {
        spec_strip_path(p, 1)
    }
}

/// How a change record is classified: a stripped old side equal to the
/// sentinel means creation, a stripped new side equal to the sentinel
/// means deletion, anything else is a modification of the old path.
pub open spec fn spec_classify(r: RecordV) -> OpV {
    let so = spec_strip_side(r.old_path);
    let sn = spec_strip_side(r.new_path);
    if so == dev_null() {
        OpV::Create { path: sn, hunk_text: r.hunk_text }
    } else if sn == dev_null() {
        OpV::Delete { path: so }
    } else {
        OpV::Modify { path: so, hunk_text: r.hunk_text }
    }
}

fn strip_side(p: &str) -> (r: String)
    ensures
        r@ == spec_strip_side(p@),
{
    if is_dev_null(p) {
        p.to_owned()
    } else {
        strip_path(p, 1)
    }
}

/// Classifies one change record into the operation it asks for.
pub fn classify_record(r: &FilePatchRecord) -> (op: PatchOp)
    ensures
        op@ == spec_classify(r@),
{
    let so = strip_side(r.old_path.as_str());
    let sn = strip_side(r.new_path.as_str());
    if is_dev_null(so.as_str()) {
        PatchOp::Create { path: sn, hunk_text: r.hunk_text.clone() }
    } else if is_dev_null(sn.as_str()) {
        PatchOp::Delete { path: so }
    } else {
        PatchOp::Modify { path: so, hunk_text: r.hunk_text.clone() }
    }
}

/// What the engine asks to be run on: the hunk body of one record and
/// the starting content it is to be applied against (empty for a
/// creation).
pub struct EngineRequest {
    pub path: String,
    pub hunk_text: String,
    pub content: String,
    pub create: bool,
}

/// The mathematical value of an [`EngineRequest`].
#[verifier::ext_equal]
pub ghost struct RequestV {
    pub path: Seq<char>,
    pub hunk_text: Seq<char>,
    pub content: Seq<char>,
    pub create: bool,
}

impl View for EngineRequest {
    type V = RequestV;

    open spec fn view(&self) -> RequestV {
        RequestV {
            path: self.path@,
            hunk_text: self.hunk_text@,
            content: self.content@,
            create: self.create,
        }
    }
}

/// What one run of the fuzzy patch engine reported: the hunk body did
/// not parse, a parsed application failed outright, an application
/// finished with the patched text and one success flag per hunk, or the
/// engine's own runtime checks halted the run while booking an unplaced
/// hunk — which the caller catches at the record boundary and reports
/// here.
#[derive(Debug, Clone, PartialEq, Eq)]
pub enum EngineReport {
    ParseFailed { error: String },
    ApplyFailed { error: String },
    Applied { content: String, flags: Vec<bool> },
    Halted,
}

/// The mathematical value of an [`EngineReport`].
#[verifier::ext_equal]
pub ghost enum ReportV {
    ParseFailed { error: Seq<char> },
    ApplyFailed { error: Seq<char> },
    Applied { content: Seq<char>, flags: Seq<bool> },
    Halted,
}

impl View for EngineReport {
    type V = ReportV;

    open spec fn view(&self) -> ReportV {
        match self {
            EngineReport::ParseFailed { error } => ReportV::ParseFailed { error: error@ },
            EngineReport::ApplyFailed { error } => ReportV::ApplyFailed { error: error@ },
            EngineReport::Applied { content, flags } => ReportV::Applied {
                content: content@,
                flags: flags@,
            },
            EngineReport::Halted => ReportV::Halted,
        }
    }
}

/// Whether every hunk of an application reported success.
pub open spec fn all_flags(flags: Seq<bool>) -> bool {
    forall|i: int| 0 <= i < flags.len() ==> flags[i]
}

fn all_true(flags: &Vec<bool>) -> (r: bool)
    ensures
        r == all_flags(flags@),
{
    let mut i: usize = 0;
    while i < flags.len()
        invariant
            i <= flags@.len(),
            forall|j: int| 0 <= j < i ==> flags@[j],
        decreases flags@.len() - i,
    {
        if !flags[i] {
            return false;
        }
        i = i + 1;
    }
    true
}

/// The state of an operation's target file, as the caller found it.
#[derive(Debug, Clone, PartialEq, Eq)]
pub enum FileState {
    Absent,
    Present { content: String },
    Unreadable { error: String },
}

/// The mathematical value of a [`FileState`].
#[verifier::ext_equal]
pub ghost enum FileStateV {
    Absent,
    Present { content: Seq<char> },
    Unreadable { error: Seq<char> },
}

impl View for FileState {
    type V = FileStateV;

    open spec fn view(&self) -> FileStateV {
        match self {
            FileState::Absent => FileStateV::Absent,
            FileState::Present { content } => FileStateV::Present { content: content@ },
            FileState::Unreadable { error } => FileStateV::Unreadable { error: error@ },
        }
    }
}

/// The disk action one record calls for, or its rejection.
#[derive(Debug, Clone, PartialEq, Eq)]
pub enum RecordStep {
    WriteCreate { path: String, content: String },
    WriteModify { path: String, content: String },
    RemoveFile { path: String },
    Reject { detail: String },
}

/// The mathematical value of a [`RecordStep`].
#[verifier::ext_equal]
pub ghost enum StepV {
    WriteCreate { path: Seq<char>, content: Seq<char> },
    WriteModify { path: Seq<char>, content: Seq<char> },
    RemoveFile { path: Seq<char> },
    Reject { detail: Seq<char> },
}

impl View for RecordStep {
    type V = StepV;

    open spec fn view(&self) -> StepV {
        match self {
            RecordStep::WriteCreate { path, content } => StepV::WriteCreate {
                path: path@,
                content: content@,
            },
            RecordStep::WriteModify { path, content } => StepV::WriteModify {
                path: path@,
                content: content@,
            },
            RecordStep::RemoveFile { path } => StepV::RemoveFile { path: path@ },
            RecordStep::Reject { detail } => StepV::Reject { detail: detail@ },
        }
    }
}

/// A bounded snippet of an unparsable hunk body, for diagnosis.
pub open spec fn spec_snippet(t: Seq<char>) -> Seq<char> {
    if t.len() > 100 {
        t.take(100) + "..."@
    } else {
        t
    }
}

/// The detail entry for a hunk body the engine could not parse.
pub open spec fn parse_fail_detail(
    noun: Seq<char>,
    path: Seq<char>,
    error: Seq<char>,
    hunk: Seq<char>,
) -> Seq<char> {
    "Failed to parse patch for "@ + noun + path + ": "@ + error + ". Patch text: "@
        + spec_snippet(hunk)
}

/// The detail entry for a hunk body outside the set the engine is
/// admitted to handle (see [`crate::screen`]).
pub open spec fn screen_fail_detail(noun: Seq<char>, path: Seq<char>, hunk: Seq<char>) -> Seq<
    char,
> {
    "Failed to parse patch for "@ + noun + path + ": unsupported hunk text. Patch text: "@
        + spec_snippet(hunk)
}

/// The detail entry when the engine reports an error applying a parsed
/// hunk body.
pub open spec fn apply_err_detail(noun: Seq<char>, path: Seq<char>, error: Seq<char>) -> Seq<
    char,
> {
    "Error applying patch for "@ + noun + path + ": "@ + error
}

/// The detail entry when some hunk could not be placed: partial
/// application is a full failure for that file.
pub open spec fn partial_detail(noun: Seq<char>, path: Seq<char>) -> Seq<char> {
    "Failed to apply patch for "@ + noun + path + ": partial application"@
}

/// How a target is named in detail entries: a creation speaks of a new
/// file, the others of a file.
pub open spec fn spec_noun(create: bool) -> Seq<char> {
    if create {
        "new file "@
    } else {
        "file "@
    }
}

/// What [`decide_step`] answers: either the record is settled without
/// the engine, or the engine must be run on the returned request and its
/// report settled by [`settle_engine_report`].
pub enum Decision {
    Settled(RecordStep),
    NeedsEngine(EngineRequest),
}

/// The mathematical value of a [`Decision`].
#[verifier::ext_equal]
pub ghost enum DecisionV {
    Settled(StepV),
    NeedsEngine(RequestV),
}

impl View for Decision {
    type V = DecisionV;

    open spec fn view(&self) -> DecisionV {
        match self {
            Decision::Settled(step) => DecisionV::Settled(step@),
            Decision::NeedsEngine(req) => DecisionV::NeedsEngine(req@),
        }
    }
}

/// What [`decide_step`] returns, for each operation and file state: a
/// deletion is rejected exactly when the target is absent, a missing or
/// unreadable modification target rejects the record, inadmissible hunk
/// text rejects the record before the engine is involved, and everything
/// else is an engine request — a creation against empty content, a
/// modification against the found content.
pub open spec fn spec_decide(op: OpV, st: FileStateV) -> DecisionV {
    match op {
        OpV::Create { path, hunk_text } => {
            if !spec_hunk_safe(hunk_text) {
                DecisionV::Settled(
                    StepV::Reject { detail: screen_fail_detail(spec_noun(true), path, hunk_text) },
                )
            } else {
                DecisionV::NeedsEngine(
                    RequestV { path, hunk_text, content: Seq::empty(), create: true },
                )
            }
        },
        OpV::Delete { path } => {
            match st {
                FileStateV::Absent => DecisionV::Settled(
                    StepV::Reject { detail: "File to delete does not exist: "@ + path },
                ),
                _ => DecisionV::Settled(StepV::RemoveFile { path }),
            }
        },
        OpV::Modify { path, hunk_text } => {
            match st {
                FileStateV::Absent => DecisionV::Settled(
                    StepV::Reject { detail: "File to modify does not exist: "@ + path },
                ),
                FileStateV::Unreadable { error } => DecisionV::Settled(
                    StepV::Reject { detail: "Failed to read file "@ + path + ": "@ + error },
                ),
                FileStateV::Present { content } => {
                    if !spec_hunk_safe(hunk_text) {
                        DecisionV::Settled(
                            StepV::Reject {
                                detail: screen_fail_detail(spec_noun(false), path, hunk_text),
                            },
                        )
                    } else {
                        DecisionV::NeedsEngine(
                            RequestV { path, hunk_text, content, create: false },
                        )
                    }
                },
            }
        },
    }
}

/// What the engine's report settles a request to: the patched content is
/// written only when every hunk was placed; a halted run stands for an
/// application with an unplaced hunk and fails the same way.
pub open spec fn spec_settle(req: RequestV, rep: ReportV) -> StepV {
    let noun = spec_noun(req.create);
    match rep {
        ReportV::ParseFailed { error } => StepV::Reject {
            detail: parse_fail_detail(noun, req.path, error, req.hunk_text),
        },
        ReportV::ApplyFailed { error } => StepV::Reject {
            detail: apply_err_detail(noun, req.path, error),
        },
        ReportV::Applied { content, flags } => {
            if all_flags(flags) {
                if req.create {
                    StepV::WriteCreate { path: req.path, content }
                } else {
                    StepV::WriteModify { path: req.path, content }
                }
            } else {
                StepV::Reject { detail: partial_detail(noun, req.path) }
            }
        },
        ReportV::Halted => StepV::Reject { detail: partial_detail(noun, req.path) },
    }
}

fn cat2(a: &str, b: &str) -> (r: String)
    ensures
        r@ == a@ + b@,
{
    let mut m = String::new();
    m.append(a);
    m.append(b);
    m
}

fn cat4(a: &str, b: &str, c: &str, d: &str) -> (r: String)
    ensures
        r@ == a@ + b@ + c@ + d@,
{
    let mut m = String::new();
    m.append(a);
    m.append(b);
    m.append(c);
    m.append(d);
    m
}

fn snippet_of(t: &str) -> (r: String)
    ensures
        r@ == spec_snippet(t@),
{
    let len = t.unicode_len();
    if len > 100 {
        let head = t.substring_char(0, 100);
        proof {
            assert(head@ =~= t@.take(100));
        }
        cat2(head, "...")
    } else {
        t.to_owned()
    }
}

fn noun_of(create: bool) -> (r: &'static str)
    ensures
        r@ == spec_noun(create),
{
    if create {
        "new file "
    } else {
        "file "
    }
}

fn screen_fail_msg(noun: &str, path: &str, hunk: &str) -> (r: String)
    ensures
        r@ == screen_fail_detail(noun@, path@, hunk@),
{
    let snippet = snippet_of(hunk);
    let mut m = String::new();
    m.append("Failed to parse patch for ");
    m.append(noun);
    m.append(path);
    m.append(": unsupported hunk text. Patch text: ");
    m.append(snippet.as_str());
    m
}

fn partial_msg(noun: &str, path: &str) -> (r: String)
    ensures
        r@ == partial_detail(noun@, path@),
{
    let mut m = String::new();
    m.append("Failed to apply patch for ");
    m.append(noun);
    m.append(path);
    m.append(": partial application");
    m
}

fn screened_request(path: String, hunk_text: &String, content: String, create: bool) -> (d:
    Decision)
    ensures
        d@ == (if spec_hunk_safe(hunk_text@) {
            DecisionV::NeedsEngine(
                RequestV { path: path@, hunk_text: hunk_text@, content: content@, create },
            )
        } else {
            DecisionV::Settled(
                StepV::Reject {
                    detail: screen_fail_detail(spec_noun(create), path@, hunk_text@),
                },
            )
        }),
{
    if hunk_text_safe(hunk_text.as_str()) {
        Decision::NeedsEngine(
            EngineRequest { path, hunk_text: hunk_text.clone(), content, create },
        )
    } else {
        let noun = noun_of(create);
        Decision::Settled(
            RecordStep::Reject { detail: screen_fail_msg(noun, path.as_str(), hunk_text.as_str()) },
        )
    }
}

/// Decides what one operation does against the target file's found
/// state: a settled disk action or rejection, or the engine request that
/// must be run and settled. No admissible record is rejected for any
/// reason outside the engine's own report.
pub fn decide_step(op: &PatchOp, st: &FileState) -> (d: Decision)
    ensures
        d@ == spec_decide(op@, st@),
{
    match op {
        PatchOp::Create { path, hunk_text } => {
            proof {
                reveal_strlit("");
                assert(""@ =~= Seq::<char>::empty());
            }
            screened_request(path.clone(), hunk_text, "".to_owned(), true)
        },
        PatchOp::Delete { path } => {
            match st {
                FileState::Absent => Decision::Settled(
                    RecordStep::Reject {
                        detail: cat2("File to delete does not exist: ", path.as_str()),
                    },
                ),
                _ => Decision::Settled(RecordStep::RemoveFile { path: path.clone() }),
            }
        },
        PatchOp::Modify { path, hunk_text } => {
            match st {
                FileState::Absent => Decision::Settled(
                    RecordStep::Reject {
                        detail: cat2("File to modify does not exist: ", path.as_str()),
                    },
                ),
                FileState::Unreadable { error } => Decision::Settled(
                    RecordStep::Reject {
                        detail: cat4("Failed to read file ", path.as_str(), ": ",
                            error.as_str()),
                    },
                ),
                FileState::Present { content } => screened_request(path.clone(), hunk_text,
                    content.clone(), false),
            }
        },
    }
}

/// Settles the engine's report on a request into the record's step.
pub fn settle_engine_report(req: &EngineRequest, report: EngineReport) -> (step: RecordStep)
    ensures
        step@ == spec_settle(req@, report@),
{
    let noun = noun_of(req.create);
    match report {
        EngineReport::ParseFailed { error } => {
            let snippet = snippet_of(req.hunk_text.as_str());
            let mut m = String::new();
            m.append("Failed to parse patch for ");
            m.append(noun);
            m.append(req.path.as_str());
            m.append(": ");
            m.append(error.as_str());
            m.append(". Patch text: ");
            m.append(snippet.as_str());
            RecordStep::Reject { detail: m }
        },
        EngineReport::ApplyFailed { error } => {
            let mut m = String::new();
            m.append("Error applying patch for ");
            m.append(noun);
            m.append(req.path.as_str());
            m.append(": ");
            m.append(error.as_str());
            RecordStep::Reject { detail: m }
        },
        EngineReport::Applied { content, flags } => {
            if all_true(&flags) {
                if req.create {
                    RecordStep::WriteCreate { path: req.path.clone(), content }
                } else {
                    RecordStep::WriteModify { path: req.path.clone(), content }
                }
            } else {
                RecordStep::Reject { detail: partial_msg(noun, req.path.as_str()) }
            }
        },
        EngineReport::Halted => RecordStep::Reject {
            detail: partial_msg(noun, req.path.as_str()),
        },
    }
}

/// The step record `k` of one submission comes to, given the file state
/// the caller found for it and the engine report where one was needed.
pub open spec fn spec_request_step(
    payload: Seq<char>,
    states: Seq<FileStateV>,
    reports: Seq<ReportV>,
    k: int,
) -> StepV {
    let st = if 0 <= k < states.len() {
        states[k]
    } else {
        FileStateV::Absent
    };
    let rep = if 0 <= k < reports.len() {
        reports[k]
    } else {
        ReportV::Halted
    };
    match spec_decide(spec_classify(crate::split::spec_split_records(payload)[k]), st) {
        DecisionV::Settled(step) => step,
        DecisionV::NeedsEngine(req) => spec_settle(req, rep),
    }
}

/// The steps one submission decides, record by record.
pub open spec fn spec_request_steps(
    payload: Seq<char>,
    states: Seq<FileStateV>,
    reports: Seq<ReportV>,
) -> Seq<StepV> {
    Seq::new(
        crate::split::spec_split_records(payload).len(),
        |k: int| spec_request_step(payload, states, reports, k),
    )
}

/// Re-submitting a payload is stable: against unchanged disk state — the
/// same found file states and the same engine reports, which an engine
/// run with its diff deadline disabled repeats on identical inputs — an
/// identical submission decides exactly the same steps, so a patch that
/// was already fully applied either applies cleanly again or fails in
/// the same reported way every time.
pub proof fn lemma_resubmission_stable(
    payload1: Seq<char>,
    states1: Seq<FileStateV>,
    reports1: Seq<ReportV>,
    payload2: Seq<char>,
    states2: Seq<FileStateV>,
    reports2: Seq<ReportV>,
)
    requires
        payload1 == payload2,
        states1 == states2,
        reports1 == reports2,
    ensures
        spec_request_steps(payload1, states1, reports1) == spec_request_steps(
            payload2,
            states2,
            reports2,
        ),
{
}

} // verus!
