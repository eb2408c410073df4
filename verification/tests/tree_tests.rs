use repopatch::tree::{build_tree, ActiveRules, RawDir, RawEntry, RawEntryKind, TreeNode};

fn file(name: &str, parent: &str) -> RawEntry {
    RawEntry {
        name: name.to_string(),
        path: format!("{}/{}", parent, name),
        kind: RawEntryKind::File,
    }
}

fn dir(name: &str, parent: &str, rule_lines: Option<Vec<String>>, entries: Result<Vec<RawEntry>, String>) -> RawEntry {
    let path = format!("{}/{}", parent, name);
    RawEntry {
        name: name.to_string(),
        path: path.clone(),
        kind: RawEntryKind::Dir(RawDir { path, rule_lines, entries }),
    }
}

fn names(t: &[(String, TreeNode)]) -> Vec<String> {
    t.iter().map(|(n, _)| n.clone()).collect()
}

#[test]
fn directories_sort_before_files_in_natural_order() {
    let root = RawDir {
        path: "/r".to_string(),
        rule_lines: None,
        entries: Ok(vec![
            file("b", "/r"),
            file("file10", "/r"),
            dir("zeta", "/r", None, Ok(vec![file("inner.txt", "/r/zeta")])),
            file("a", "/r"),
            file("file2", "/r"),
            dir("alpha", "/r", None, Ok(vec![file("x.txt", "/r/alpha")])),
        ]),
    };
    let t = build_tree(&root, &ActiveRules::empty()).expect("tree");
    assert_eq!(
        names(&t),
        vec!["alpha", "zeta", "a", "b", "file2", "file10"]
    );
}

#[test]
fn empty_and_unreadable_folders_are_omitted() {
    let root = RawDir {
        path: "/r".to_string(),
        rule_lines: None,
        entries: Ok(vec![
            dir("empty", "/r", None, Ok(vec![])),
            dir("broken", "/r", None, Err("permission denied".to_string())),
            dir("full", "/r", None, Ok(vec![file("keep.txt", "/r/full")])),
            file("top.txt", "/r"),
        ]),
    };
    let t = build_tree(&root, &ActiveRules::empty()).expect("tree");
    assert_eq!(names(&t), vec!["full", "top.txt"]);
    match &t[0].1 {
        TreeNode::Folder { path, children } => {
            assert_eq!(path, "/r/full");
            assert_eq!(names(children), vec!["keep.txt"]);
        }
        other => panic!("expected a folder, got {:?}", other),
    }
}

#[test]
fn folder_of_only_ignored_entries_is_omitted() {
    let root = RawDir {
        path: "/r".to_string(),
        rule_lines: Some(vec!["*.log".to_string()]),
        entries: Ok(vec![
            dir("logs", "/r", None, Ok(vec![file("a.log", "/r/logs"), file("b.log", "/r/logs")])),
            file("keep.txt", "/r"),
        ]),
    };
    let t = build_tree(&root, &ActiveRules::empty()).expect("tree");
    assert_eq!(names(&t), vec!["keep.txt"]);
}

#[test]
fn ignored_entries_are_dropped_with_their_subtrees() {
    let root = RawDir {
        path: "/r".to_string(),
        rule_lines: Some(vec!["*.log".to_string(), "node_modules/".to_string()]),
        entries: Ok(vec![
            file("trace.log", "/r"),
            file("main.rs", "/r"),
            dir("node_modules", "/r", None, Ok(vec![file("pkg.js", "/r/node_modules")])),
        ]),
    };
    let t = build_tree(&root, &ActiveRules::empty()).expect("tree");
    assert_eq!(names(&t), vec!["main.rs"]);
}

#[test]
fn own_rule_file_replaces_inherited_rules_without_union() {
    // The root ignores *.txt; the subdirectory has its own rule file that
    // ignores only *.md, so its text files must surface again.
    let root = RawDir {
        path: "/r".to_string(),
        rule_lines: Some(vec!["*.txt".to_string()]),
        entries: Ok(vec![
            file("hidden.txt", "/r"),
            dir(
                "sub",
                "/r",
                None,
                Ok(vec![dir(
                    "own",
                    "/r/sub",
                    Some(vec!["*.md".to_string()]),
                    Ok(vec![file("note.txt", "/r/sub/own"), file("doc.md", "/r/sub/own")]),
                )]),
            ),
        ]),
    };
    let t = build_tree(&root, &ActiveRules::empty()).expect("tree");
    assert_eq!(names(&t), vec!["sub"]);
    let sub_children = match &t[0].1 {
        TreeNode::Folder { children, .. } => children,
        other => panic!("expected a folder, got {:?}", other),
    };
    assert_eq!(names(sub_children), vec!["own"]);
    let own_children = match &sub_children[0].1 {
        TreeNode::Folder { children, .. } => children,
        other => panic!("expected a folder, got {:?}", other),
    };
    assert_eq!(names(own_children), vec!["note.txt"]);
}

#[test]
fn inherited_rules_apply_to_subdirectories_without_their_own_file() {
    let root = RawDir {
        path: "/r".to_string(),
        rule_lines: Some(vec!["*.tmp".to_string()]),
        entries: Ok(vec![dir(
            "child",
            "/r",
            None,
            Ok(vec![file("junk.tmp", "/r/child"), file("real.rs", "/r/child")]),
        )]),
    };
    let t = build_tree(&root, &ActiveRules::empty()).expect("tree");
    assert_eq!(names(&t), vec!["child"]);
    match &t[0].1 {
        TreeNode::Folder { children, .. } => assert_eq!(names(children), vec!["real.rs"]),
        other => panic!("expected a folder, got {:?}", other),
    }
}

#[test]
fn unreadable_root_is_a_terminal_error() {
    let root = RawDir {
        path: "/r".to_string(),
        rule_lines: None,
        entries: Err("no access".to_string()),
    };
    let err = build_tree(&root, &ActiveRules::empty()).unwrap_err();
    assert_eq!(err, "Failed to read directory: no access");
}

#[test]
fn rule_set_matching_is_observable_directly() {
    let rules = ActiveRules::from_lines("/r", &vec!["*.log".to_string()]);
    assert!(rules.is_ignored("/r/foo.log", false));
    assert!(!rules.is_ignored("/r/foo.rs", false));
    let empty = ActiveRules::empty();
    assert!(!empty.is_ignored("/r/foo.log", false));
}
