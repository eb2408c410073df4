use repopatch::batch::{
    batch_result, check_batch_paths, insert_batch_result, BatchFileResult, ReadOutcome,
    BATCH_CONCURRENCY_LIMIT,
};

#[test]
fn empty_batch_request_is_rejected() {
    let err = check_batch_paths(&Vec::new()).unwrap_err();
    assert_eq!(err, "Paths array is required and cannot be empty");
}

#[test]
fn non_empty_batch_request_is_accepted() {
    assert!(check_batch_paths(&vec!["a.txt".to_string()]).is_ok());
}

#[test]
fn read_outcomes_map_to_result_entries() {
    let ok = batch_result(ReadOutcome::ReadOk { content: "hello".to_string() });
    assert_eq!(ok, BatchFileResult {
        success: true,
        content: Some("hello".to_string()),
        error: None,
    });

    let bad_path = batch_result(ReadOutcome::ResolveFailed { error: "no entry".to_string() });
    assert_eq!(bad_path.error, Some("Invalid path: no entry".to_string()));
    assert!(!bad_path.success);
    assert_eq!(bad_path.content, None);

    let not_file = batch_result(ReadOutcome::NotAFile);
    assert_eq!(not_file.error, Some("Path is not a file".to_string()));
    assert!(!not_file.success);

    let read_err = batch_result(ReadOutcome::ReadFailed { error: "denied".to_string() });
    assert_eq!(read_err.error, Some("Failed to read file: denied".to_string()));
    assert!(!read_err.success);
}

#[test]
fn results_are_keyed_by_the_callers_exact_strings() {
    // One existing file and one missing path: the response carries both
    // keys, the failure stays per-path, and the request as a whole still
    // counts as a success at the endpoint.
    let mut results: Vec<(String, BatchFileResult)> = Vec::new();
    insert_batch_result(
        &mut results,
        "a.txt".to_string(),
        ReadOutcome::ReadOk { content: "contents of a".to_string() },
    );
    insert_batch_result(
        &mut results,
        "missing.txt".to_string(),
        ReadOutcome::ResolveFailed { error: "not found".to_string() },
    );
    assert_eq!(results.len(), 2);
    assert_eq!(results[0].0, "a.txt");
    assert!(results[0].1.success);
    assert_eq!(results[0].1.content, Some("contents of a".to_string()));
    assert_eq!(results[1].0, "missing.txt");
    assert!(!results[1].1.success);
    assert_eq!(results[1].1.content, None);
}

#[test]
fn concurrency_cap_is_fixed() {
    assert_eq!(BATCH_CONCURRENCY_LIMIT, 50);
}
