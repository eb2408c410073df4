use diff_match_patch_rs::{Compat, DiffMatchPatch, PatchInput};
use repopatch::outcome::{record_step_result, IoOutcome, PatchOutcome};
use repopatch::patch::{
    classify_record, decide_step, settle_engine_report, Decision, EngineReport, EngineRequest,
    FileState, PatchOp, RecordStep,
};
use repopatch::split::split_patch_content;

fn patch_body(old: &str, new: &str) -> String {
    let dmp = DiffMatchPatch::new();
    let patches = dmp
        .patch_make::<Compat>(PatchInput::new_text_text(old, new))
        .expect("patch_make");
    dmp.patch_to_text(&patches)
}

fn run_engine(req: &EngineRequest) -> EngineReport {
    let mut dmp = DiffMatchPatch::new();
    dmp.set_timeout(None);
    match dmp.patch_from_text::<Compat>(&req.hunk_text) {
        Err(e) => EngineReport::ParseFailed { error: format!("{:?}", e) },
        Ok(patches) => match dmp.patch_apply(&patches, &req.content) {
            Err(e) => EngineReport::ApplyFailed { error: format!("{:?}", e) },
            Ok((content, flags)) => EngineReport::Applied { content, flags },
        },
    }
}

fn decide_full(op: &PatchOp, st: &FileState) -> RecordStep {
    match decide_step(op, st) {
        Decision::Settled(step) => step,
        Decision::NeedsEngine(req) => {
            let report = run_engine(&req);
            settle_engine_report(&req, report)
        }
    }
}

#[test]
fn classify_distinguishes_create_delete_modify() {
    let payload = format!(
        "--- /dev/null\n+++ b/new.txt\n{body}--- a/gone.txt\n+++ /dev/null\n@@ -1 +0,0 @@\n-bye\n--- a/mod.txt\n+++ b/mod.txt\n{body}",
        body = "@@ -1 +1 @@\n-x\n+y\n"
    );
    let records = split_patch_content(&payload);
    assert_eq!(records.len(), 3);
    let ops: Vec<PatchOp> = records.iter().map(classify_record).collect();
    assert!(matches!(&ops[0], PatchOp::Create { path, .. } if path == "new.txt"));
    assert!(matches!(&ops[1], PatchOp::Delete { path } if path == "gone.txt"));
    assert!(matches!(&ops[2], PatchOp::Modify { path, .. } if path == "mod.txt"));
}

#[test]
fn create_from_fully_applying_patch_produces_exact_content() {
    let wanted = "alpha\nbeta\n";
    let payload = format!("--- /dev/null\n+++ b/new.txt\n{}", patch_body("", wanted));
    let records = split_patch_content(&payload);
    assert_eq!(records.len(), 1);
    let op = classify_record(&records[0]);
    let step = decide_full(&op, &FileState::Absent);
    match &step {
        RecordStep::WriteCreate { path, content } => {
            assert_eq!(path, "new.txt");
            assert_eq!(content, wanted);
        }
        other => panic!("expected a creation write, got {:?}", other),
    }
    let mut outcome = PatchOutcome::new();
    record_step_result(&mut outcome, step, &IoOutcome::Done);
    assert_eq!(outcome.applied_files, vec!["new.txt".to_string()]);
    assert!(outcome.details.is_empty());
    assert!(outcome.overall_success());
}

#[test]
fn delete_of_missing_file_leaves_detail_and_later_records_still_apply() {
    let wanted = "later\n";
    let payload = format!(
        "--- a/missing.txt\n+++ /dev/null\n@@ -1 +0,0 @@\n-old\n--- /dev/null\n+++ b/ok.txt\n{}",
        patch_body("", wanted)
    );
    let records = split_patch_content(&payload);
    assert_eq!(records.len(), 2);
    let mut outcome = PatchOutcome::new();

    let op1 = classify_record(&records[0]);
    let step1 = decide_full(&op1, &FileState::Absent);
    assert!(matches!(&step1, RecordStep::Reject { .. }));
    record_step_result(&mut outcome, step1, &IoOutcome::Done);

    let op2 = classify_record(&records[1]);
    let step2 = decide_full(&op2, &FileState::Absent);
    assert!(matches!(&step2, RecordStep::WriteCreate { .. }));
    record_step_result(&mut outcome, step2, &IoOutcome::Done);

    assert_eq!(outcome.details.len(), 1);
    assert!(outcome.details[0].contains("File to delete does not exist"));
    assert!(outcome.details[0].contains("missing.txt"));
    assert!(!outcome.applied_files.contains(&"missing.txt".to_string()));
    assert_eq!(outcome.applied_files, vec!["ok.txt".to_string()]);
    assert!(!outcome.overall_success());
}

#[test]
fn delete_of_existing_file_asks_for_removal() {
    let op = PatchOp::Delete { path: "here.txt".to_string() };
    let step = decide_full(&op, &FileState::Present { content: String::new() });
    assert!(matches!(&step, RecordStep::RemoveFile { path } if path == "here.txt"));
    let mut outcome = PatchOutcome::new();
    record_step_result(&mut outcome, step, &IoOutcome::Done);
    assert_eq!(outcome.applied_files, vec!["here.txt".to_string()]);
}

#[test]
fn partially_matching_patch_is_rejected_with_one_detail() {
    let old = "The quick brown fox jumps over the lazy dog and runs away fast.\n";
    let new = "The quick brown cat jumps over the lazy dog and runs away fast.\n";
    let payload = format!("--- a/data.txt\n+++ b/data.txt\n{}", patch_body(old, new));
    let records = split_patch_content(&payload);
    assert_eq!(records.len(), 1);
    let op = classify_record(&records[0]);
    let unrelated = "0123456789 completely different bytes 9876543210";
    let step = decide_full(&op, &FileState::Present { content: unrelated.to_string() });
    match &step {
        RecordStep::Reject { detail } => {
            assert!(detail.contains("data.txt"));
            assert!(detail.contains("partial application"));
        }
        other => panic!("expected a rejection, got {:?}", other),
    }
    let mut outcome = PatchOutcome::new();
    record_step_result(&mut outcome, step, &IoOutcome::Done);
    assert_eq!(outcome.details.len(), 1);
    assert!(outcome.applied_files.is_empty());
}

#[test]
fn modify_of_missing_file_is_rejected() {
    let op = PatchOp::Modify { path: "gone.txt".to_string(), hunk_text: "@@".to_string() };
    let step = decide_full(&op, &FileState::Absent);
    assert!(matches!(&step, RecordStep::Reject { detail }
        if detail.contains("File to modify does not exist: gone.txt")));
}

#[test]
fn unreadable_file_is_rejected_with_read_error() {
    let op = PatchOp::Modify { path: "locked.txt".to_string(), hunk_text: "@@".to_string() };
    let step = decide_full(
        &op,
        &FileState::Unreadable { error: "permission denied".to_string() },
    );
    assert!(matches!(&step, RecordStep::Reject { detail }
        if detail == "Failed to read file locked.txt: permission denied"));
}

#[test]
fn unparsable_hunk_is_rejected_with_snippet() {
    let op = PatchOp::Create {
        path: "bad.txt".to_string(),
        hunk_text: "this is not a patch".to_string(),
    };
    let step = decide_full(&op, &FileState::Absent);
    match &step {
        RecordStep::Reject { detail } => {
            assert!(detail.starts_with("Failed to parse patch for new file bad.txt: "));
            assert!(detail.contains("this is not a patch"));
        }
        other => panic!("expected a rejection, got {:?}", other),
    }
}

#[test]
fn io_failures_become_details() {
    let mut outcome = PatchOutcome::new();
    record_step_result(
        &mut outcome,
        RecordStep::WriteModify { path: "f.txt".to_string(), content: "c".to_string() },
        &IoOutcome::WriteFailed { error: "disk full".to_string() },
    );
    record_step_result(
        &mut outcome,
        RecordStep::WriteCreate { path: "g.txt".to_string(), content: "c".to_string() },
        &IoOutcome::MkdirFailed { error: "denied".to_string() },
    );
    record_step_result(
        &mut outcome,
        RecordStep::RemoveFile { path: "h.txt".to_string() },
        &IoOutcome::RemoveFailed { error: "busy".to_string() },
    );
    assert_eq!(outcome.details, vec![
        "Failed to write modified file f.txt: disk full".to_string(),
        "Failed to create directory for g.txt: denied".to_string(),
        "Failed to delete file h.txt: busy".to_string(),
    ]);
    assert!(outcome.applied_files.is_empty());
}

#[test]
fn resubmission_against_unchanged_state_decides_identically() {
    let old = "one\ntwo\nthree\n";
    let new = "one\n2\nthree\n";
    let payload = format!("--- a/n.txt\n+++ b/n.txt\n{}", patch_body(old, new));
    let state = FileState::Present { content: new.to_string() };

    let records1 = split_patch_content(&payload);
    let records2 = split_patch_content(&payload);
    assert_eq!(records1, records2);

    let step1 = decide_full(&classify_record(&records1[0]), &state);
    let step2 = decide_full(&classify_record(&records2[0]), &state);
    assert_eq!(step1, step2);
}

#[test]
fn modify_with_matching_content_produces_exact_new_content() {
    let old = "line one\nline two\nline three\n";
    let new = "line one\nline 2\nline three\n";
    let payload = format!("--- a/doc.txt\n+++ b/doc.txt\n{}", patch_body(old, new));
    let records = split_patch_content(&payload);
    let op = classify_record(&records[0]);
    let step = decide_full(&op, &FileState::Present { content: old.to_string() });
    match &step {
        RecordStep::WriteModify { path, content } => {
            assert_eq!(path, "doc.txt");
            assert_eq!(content, new);
        }
        other => panic!("expected a modification write, got {:?}", other),
    }
}

#[test]
fn modify_tolerates_shifted_line_offsets() {
    let old = "alpha\nbravo\ncharlie\ndelta\necho\n";
    let new = "alpha\nbravo\ncharlie\nDELTA\necho\n";
    let payload = format!("--- a/doc.txt\n+++ b/doc.txt\n{}", patch_body(old, new));
    let records = split_patch_content(&payload);
    let op = classify_record(&records[0]);
    // The on-disk file has drifted: two lines were prepended since the
    // diff was recorded, so the hunk's nominal offset is stale.
    let drifted = format!("intro\nmore intro\n{}", old);
    let step = decide_full(&op, &FileState::Present { content: drifted });
    match &step {
        RecordStep::WriteModify { path, content } => {
            assert_eq!(path, "doc.txt");
            assert_eq!(content, &format!("intro\nmore intro\n{}", new));
        }
        other => panic!("expected a modification write, got {:?}", other),
    }
}

#[test]
fn hunk_with_undecodable_escape_is_rejected_before_the_engine() {
    let op = PatchOp::Create {
        path: "bad.txt".to_string(),
        hunk_text: "@@ -0,0 +1,1 @@\n+%FF".to_string(),
    };
    let step = decide_full(&op, &FileState::Absent);
    match &step {
        RecordStep::Reject { detail } => {
            assert!(detail.starts_with("Failed to parse patch for new file bad.txt: unsupported hunk text."));
        }
        other => panic!("expected a rejection, got {:?}", other),
    }
}

#[test]
fn hunk_with_zero_offset_header_is_rejected_before_the_engine() {
    let op = PatchOp::Modify {
        path: "f.txt".to_string(),
        hunk_text: "@@ -0 +0 @@\n-x".to_string(),
    };
    let step = decide_full(&op, &FileState::Present { content: "x".to_string() });
    assert!(matches!(&step, RecordStep::Reject { detail }
        if detail.contains("unsupported hunk text")));
}

#[test]
fn admitted_escapes_decode_in_the_applied_content() {
    let op = PatchOp::Create {
        path: "esc.txt".to_string(),
        hunk_text: "@@ -0,0 +1,3 @@\n+a%0Ab".to_string(),
    };
    let step = decide_full(&op, &FileState::Absent);
    match &step {
        RecordStep::WriteCreate { path, content } => {
            assert_eq!(path, "esc.txt");
            assert_eq!(content, "a\nb");
        }
        other => panic!("expected a creation write, got {:?}", other),
    }
}

#[test]
fn halted_engine_run_counts_as_partial_application() {
    let req = EngineRequest {
        path: "h.txt".to_string(),
        hunk_text: "@@ -1,9 +1,2 @@\n-deadwood\n z".to_string(),
        content: "unrelated".to_string(),
        create: false,
    };
    let step = settle_engine_report(&req, EngineReport::Halted);
    assert!(matches!(&step, RecordStep::Reject { detail }
        if detail == "Failed to apply patch for file h.txt: partial application"));
}
