use repopatch::paths::{strip_path, validate_path};
use repopatch::split::split_patch_content;

#[test]
fn split_two_sections_yields_two_records() {
    let payload = "--- a/one.txt\n+++ b/one.txt\n@@ -1 +1 @@\n-x\n+y\n\
                   --- a/two.txt\n+++ b/two.txt\n@@ -1 +1 @@\n-p\n+q\n";
    let records = split_patch_content(payload);
    assert_eq!(records.len(), 2);
    assert_eq!(records[0].old_path, "a/one.txt");
    assert_eq!(records[0].new_path, "b/one.txt");
    assert_eq!(records[0].hunk_text, "@@ -1 +1 @@\n-x\n+y");
    assert_eq!(records[1].old_path, "a/two.txt");
    assert_eq!(records[1].new_path, "b/two.txt");
    assert_eq!(records[1].hunk_text, "@@ -1 +1 @@\n-p\n+q");
}

#[test]
fn split_drops_trailing_section_with_empty_body() {
    let payload = "--- a/one.txt\n+++ b/one.txt\n@@ -1 +1 @@\n-x\n+y\n\
                   --- a/two.txt\n+++ b/two.txt\n";
    let records = split_patch_content(payload);
    assert_eq!(records.len(), 1);
    assert_eq!(records[0].old_path, "a/one.txt");
}

#[test]
fn split_recovers_from_addition_header_without_removal_header() {
    let payload = "+++ b/orphan.txt\njunk\n\
                   --- a/real.txt\n+++ b/real.txt\nbody line\n";
    let records = split_patch_content(payload);
    assert_eq!(records.len(), 1);
    assert_eq!(records[0].old_path, "a/real.txt");
    assert_eq!(records[0].new_path, "b/real.txt");
    assert_eq!(records[0].hunk_text, "body line");
}

#[test]
fn split_ignores_leading_blank_lines_and_junk_before_headers() {
    let payload = "\n\nstray text\n--- a/f\n+++ b/f\nhunk\n";
    let records = split_patch_content(payload);
    assert_eq!(records.len(), 1);
    assert_eq!(records[0].hunk_text, "hunk");
}

#[test]
fn split_trims_line_ends_and_header_paths() {
    let payload = "--- a/f.txt \t\n+++ b/f.txt\r\nbody\r\n";
    let records = split_patch_content(payload);
    assert_eq!(records.len(), 1);
    assert_eq!(records[0].old_path, "a/f.txt");
    assert_eq!(records[0].new_path, "b/f.txt");
    assert_eq!(records[0].hunk_text, "body");
}

#[test]
fn split_empty_payload_yields_no_records() {
    assert_eq!(split_patch_content("").len(), 0);
    assert_eq!(split_patch_content("no headers here\n").len(), 0);
}

#[test]
fn strip_path_removes_one_leading_segment() {
    assert_eq!(strip_path("a/b/c", 1), "b/c");
    assert_eq!(strip_path("b/one.txt", 1), "one.txt");
}

#[test]
fn strip_path_keeps_short_paths_unchanged() {
    assert_eq!(strip_path("justfile", 1), "justfile");
    assert_eq!(strip_path("", 1), "");
}

#[test]
fn strip_path_counts_empty_leading_segment() {
    assert_eq!(strip_path("/a/b", 1), "a/b");
    assert_eq!(strip_path("a/b/c/d", 2), "c/d");
}

#[test]
fn validate_path_resolves_an_existing_directory() {
    let resolved = validate_path(".").expect("current directory should resolve");
    assert_ne!(resolved, ".");
    assert!(!resolved.is_empty());
}

#[test]
fn validate_path_reports_a_missing_path() {
    let err = validate_path("/no/such/path/here-at-all").unwrap_err();
    assert!(err.starts_with("Failed to canonicalize base directory path '/no/such/path/here-at-all': "));
}

#[test]
fn insertion_lines_shaped_like_headers_stay_in_the_body() {
    let payload = "--- a/f\n+++ b/f\n@@ -1 +1 @@\n+++ added text\n";
    let records = split_patch_content(payload);
    assert_eq!(records.len(), 1);
    assert_eq!(records[0].new_path, "b/f");
    assert_eq!(records[0].hunk_text, "@@ -1 +1 @@\n+++ added text");
}
