use aiced::config::RepositoryConfig;
use aiced::errors::AicedError;
use aiced::file_change::FileChange;
use aiced::file_modifier::FileModifier;
use aiced::line_change::LineChange;
use aiced::store::{make_full_path, FileStore};

fn store_with(path: &str, text: &str) -> FileStore {
    let mut store = FileStore::new();
    store.add(path.to_string(), true, Some(text.to_string()), String::new());
    store
}

fn repo(path: &str) -> RepositoryConfig {
    RepositoryConfig {
        name: "demo".to_string(),
        path: path.to_string(),
        branch: None,
        auto_pull: false,
        auto_pr: false,
    }
}

fn replace(n: usize, old: &str, new: &str) -> LineChange {
    LineChange::Replace { line_number: n, old_content: old.to_string(), new_content: new.to_string() }
}

fn modify(path: &str, lcs: Vec<LineChange>) -> FileChange {
    FileChange::ModifyFile {
        file_path: path.to_string(),
        reason: "r".to_string(),
        severity: "high".to_string(),
        category: "BUG".to_string(),
        line_changes: lcs,
    }
}

fn validation_parts(e: &AicedError) -> (String, String, String, Option<String>) {
    match e {
        AicedError::ValidationError { field, value, constraint, suggestion } => {
            (field.clone(), value.clone(), constraint.clone(), suggestion.clone())
        }
        other => panic!("not a validation error: {:?}", other),
    }
}

#[test]
fn full_path_collapses_double_slashes() {
    assert_eq!(make_full_path("repo", "a.txt"), "repo/a.txt");
    assert_eq!(make_full_path("repo/", "a.txt"), "repo/a.txt");
    assert_eq!(make_full_path("repo/", "/a.txt"), "repo///a.txt".replace("//", "/"));
    assert_eq!(make_full_path("", "a.txt"), "/a.txt");
}

#[test]
fn store_reads_writes_and_removes() {
    let mut store = FileStore::new();
    store.add("p".to_string(), true, None, "denied".to_string());
    assert!(store.file_is_present("p"));
    assert_eq!(store.read("p"), Err("denied".to_string()));
    assert!(!store.file_is_present("q"));
    assert_eq!(store.read("q"), Err(String::new()));
    store.write("q", "new".to_string());
    assert!(store.file_is_present("q"));
    assert_eq!(store.read("q"), Ok("new".to_string()));
    store.remove("q");
    assert!(!store.file_is_present("q"));
    assert!(store.read("q").is_err());
}

#[test]
fn modifications_apply_in_line_order() {
    let mut store = store_with("repo/a.txt", "one\ntwo\nthree\nfour");
    let changes = vec![
        replace(2, "two", "TWO"),
        LineChange::InsertAfter { line_number: 4, new_content: "five".to_string() },
        LineChange::Delete { line_number: 1 },
    ];
    FileModifier::apply_file_modifications(&mut store, "repo", "a.txt", &changes).expect("applies");
    assert_eq!(store.read("repo/a.txt"), Ok("TWO\nthree\nfour\nfive".to_string()));
}

#[test]
fn modifications_with_multi_line_texts_apply() {
    let mut store = store_with("repo/a.txt", "a\nb\nc");
    let changes = vec![
        replace(2, "b", "b1\nb2"),
        LineChange::InsertBefore { line_number: 1, new_content: "x\ny".to_string() },
        LineChange::ReplaceRange {
            start_line: 3,
            end_line: 3,
            old_content: vec!["c".to_string()],
            new_content: vec!["C".to_string(), "D".to_string()],
        },
    ];
    FileModifier::apply_file_modifications(&mut store, "repo", "a.txt", &changes).expect("applies");
    assert_eq!(store.read("repo/a.txt"), Ok("x\ny\na\nb1\nb2\nC\nD".to_string()));
}

#[test]
fn modification_with_wrong_old_text_is_refused_and_file_kept() {
    let mut store = store_with("repo/a.txt", "one\ntwo");
    let changes = vec![LineChange::Delete { line_number: 1 }, replace(2, "zwei", "2")];
    let err = FileModifier::apply_file_modifications(&mut store, "repo", "a.txt", &changes).unwrap_err();
    let (field, value, constraint, suggestion) = validation_parts(&err);
    assert_eq!(field, "line_number");
    assert_eq!(value, "1");
    assert_eq!(constraint, "Line Wrong");
    assert_eq!(suggestion.as_deref(), Some("Change 2 validation failed"));
    assert_eq!(store.read("repo/a.txt"), Ok("one\ntwo".to_string()));
}

#[test]
fn modification_of_missing_file_is_refused() {
    let mut store = FileStore::new();
    let err = FileModifier::apply_file_modifications(&mut store, "repo/", "/gone.rs", &[]).unwrap_err();
    match err {
        AicedError::FileOperationError { file_path, operation, reason } => {
            assert_eq!(file_path, "repo//gone.rs");
            assert_eq!(operation, "not_found");
            assert_eq!(reason, "File does not exist: repo//gone.rs");
        }
        other => panic!("unexpected {:?}", other),
    }
}

#[test]
fn modification_of_unreadable_file_reports_the_read_error() {
    let mut store = FileStore::new();
    store.add("repo/a".to_string(), true, None, "permission denied".to_string());
    let err = FileModifier::apply_file_modifications(&mut store, "repo", "a", &[]).unwrap_err();
    match err {
        AicedError::SystemError { operation, reason } => {
            assert_eq!(operation, "I/O operation");
            assert_eq!(reason, "permission denied");
        }
        other => panic!("unexpected {:?}", other),
    }
}

#[test]
fn validation_dry_run_catches_lines_removed_earlier() {
    let store = store_with("repo/a.txt", "only");
    let changes = vec![LineChange::Delete { line_number: 1 }, LineChange::Delete { line_number: 1 }];
    let err = FileModifier::validate_file_modifications(&store, "repo", "a.txt", &changes).unwrap_err();
    let (field, value, constraint, suggestion) = validation_parts(&err);
    assert_eq!(field, "line_number");
    assert_eq!(value, "1");
    assert_eq!(constraint, "Line Wrong");
    assert_eq!(
        suggestion.as_deref(),
        Some("After applying previous changes, change 2 would reference invalid line 1 (file has 0 lines)")
    );
}

#[test]
fn validation_accepts_what_applies() {
    let mut store = store_with("repo/a.txt", "one\ntwo\nthree");
    let changes = vec![LineChange::DeleteMany { start_line: 2, end_line: 3 }, replace(1, " one ", "1")];
    FileModifier::validate_file_modifications(&store, "repo", "a.txt", &changes).expect("valid");
    FileModifier::apply_file_modifications(&mut store, "repo", "a.txt", &changes).expect("applies");
    assert_eq!(store.read("repo/a.txt"), Ok("1".to_string()));
}

#[test]
fn validation_reports_out_of_range_change() {
    let store = store_with("repo/a.txt", "one");
    let changes = vec![LineChange::Delete { line_number: 7 }];
    let err = FileModifier::validate_file_modifications(&store, "repo", "a.txt", &changes).unwrap_err();
    let (_, value, _, suggestion) = validation_parts(&err);
    assert_eq!(value, "0");
    assert_eq!(suggestion.as_deref(), Some("Change 1 validation failed"));
}

#[test]
fn smart_application_relocates_a_shifted_replace() {
    let mut store = store_with("repo/a.txt", "a\nb\nc");
    let changes = vec![replace(1, "b", "B")];
    FileModifier::apply_file_modifications_with_smart_validation(&mut store, "repo", "a.txt", &changes)
        .expect("applies");
    assert_eq!(store.read("repo/a.txt"), Ok("a\nB\nc".to_string()));
}

#[test]
fn smart_application_refuses_text_it_cannot_find() {
    let mut store = store_with("repo/a.txt", "a\nb\nc");
    let changes = vec![replace(1, "zzz", "B")];
    let err = FileModifier::apply_file_modifications_with_smart_validation(&mut store, "repo", "a.txt", &changes)
        .unwrap_err();
    let (field, value, constraint, suggestion) = validation_parts(&err);
    assert_eq!(field, "line_number");
    assert_eq!(value, "0");
    assert_eq!(constraint, "Line Wrong");
    assert_eq!(suggestion.as_deref(), Some("Change 1 validation failed"));
    assert_eq!(store.read("repo/a.txt"), Ok("a\nb\nc".to_string()));
}

#[test]
fn smart_application_moves_later_changes_by_earlier_offsets() {
    let mut store = store_with("repo/a.txt", "a\nb\nc");
    let changes = vec![
        LineChange::InsertManyBefore { line_number: 1, new_lines: vec!["x".to_string(), "y".to_string()] },
        replace(3, "c", "C"),
    ];
    FileModifier::apply_file_modifications_with_smart_validation(&mut store, "repo", "a.txt", &changes)
        .expect("applies");
    assert_eq!(store.read("repo/a.txt"), Ok("x\ny\na\nb\nC".to_string()));
}

#[test]
fn batch_validation_reports_errors_and_warnings() {
    let mut store = store_with("repo/a.txt", "x\ny");
    store.add("repo/b.txt".to_string(), false, None, String::new());
    let changes = vec![
        modify("a.txt", vec![replace(1, "x", "y"), LineChange::Delete { line_number: 1 }]),
        modify("b.txt", vec![LineChange::Delete { line_number: 1 }]),
        FileChange::CreateFile {
            file_path: "a.txt".to_string(),
            reason: "r".to_string(),
            severity: "low".to_string(),
            category: "BUG".to_string(),
            content: "new".to_string(),
        },
        FileChange::DeleteFile {
            file_path: "c.txt".to_string(),
            reason: "r".to_string(),
            severity: "low".to_string(),
            category: "BUG".to_string(),
        },
        modify("a.txt", vec![LineChange::Delete { line_number: 0 }]),
    ];
    let result = FileModifier::validate_changes_batch(&store, &repo("repo"), &changes).expect("checked");
    assert!(!result.is_valid);
    assert_eq!(
        result.errors,
        vec![
            "Invalid line change in a.txt: System error during validate line: Line number cannot be 0".to_string(),
            "File does not exist: b.txt".to_string(),
        ]
    );
    assert_eq!(
        result.warnings,
        vec![
            "Conflicting line changes in a.txt: Replace line 1 and Delete line 1".to_string(),
            "File already exists, will be overwritten: a.txt".to_string(),
            "File does not exist, cannot delete: c.txt".to_string(),
        ]
    );
}

#[test]
fn batch_validation_of_clean_batch_is_valid() {
    let store = store_with("repo/a.txt", "x\ny");
    let changes = vec![modify("a.txt", vec![replace(1, "x", "X"), LineChange::Delete { line_number: 2 }])];
    let result = FileModifier::validate_changes_batch(&store, &repo("repo"), &changes).expect("checked");
    assert!(result.is_valid);
    assert!(result.errors.is_empty());
    assert!(result.warnings.is_empty());
}

#[test]
fn single_change_application_by_kind() {
    let mut store = store_with("repo/a.txt", "x\ny");
    let create = FileChange::CreateFile {
        file_path: "n.txt".to_string(),
        reason: "r".to_string(),
        severity: "low".to_string(),
        category: "BUG".to_string(),
        content: "hello".to_string(),
    };
    FileModifier::apply_change_with_logging(&mut store, &repo("repo"), &create).expect("created");
    assert_eq!(store.read("repo/n.txt"), Ok("hello".to_string()));

    let delete = FileChange::DeleteFile {
        file_path: "n.txt".to_string(),
        reason: "r".to_string(),
        severity: "low".to_string(),
        category: "BUG".to_string(),
    };
    FileModifier::apply_change_with_logging(&mut store, &repo("repo"), &delete).expect("deleted");
    assert!(!store.file_is_present("repo/n.txt"));

    let err = FileModifier::apply_change_with_logging(&mut store, &repo("repo"), &delete).unwrap_err();
    let (field, value, constraint, suggestion) = validation_parts(&err);
    assert_eq!(field, "file_exists");
    assert_eq!(value, "repo/n.txt");
    assert_eq!(constraint, "Line Wrong");
    assert_eq!(suggestion.as_deref(), Some("File does not exist"));

    let edit = modify("a.txt", vec![replace(2, "y", "Y")]);
    FileModifier::apply_change_with_logging(&mut store, &repo("repo"), &edit).expect("modified");
    assert_eq!(store.read("repo/a.txt"), Ok("x\nY".to_string()));
}

#[test]
fn grouped_application_counts_what_went_through() {
    let mut store = store_with("repo/a.txt", "one\ntwo");
    let changes = vec![
        modify("a.txt", vec![replace(1, "one", "ONE")]),
        FileChange::CreateFile {
            file_path: "n.txt".to_string(),
            reason: "r".to_string(),
            severity: "low".to_string(),
            category: "BUG".to_string(),
            content: "hello".to_string(),
        },
        modify("a.txt", vec![LineChange::Delete { line_number: 2 }]),
        FileChange::DeleteFile {
            file_path: "missing.txt".to_string(),
            reason: "r".to_string(),
            severity: "low".to_string(),
            category: "BUG".to_string(),
        },
    ];
    let count = FileModifier::apply_changes_grouped_by_file(&mut store, &repo("repo"), &changes).expect("done");
    assert_eq!(count, 3);
    assert_eq!(store.read("repo/a.txt"), Ok("ONE".to_string()));
    assert_eq!(store.read("repo/n.txt"), Ok("hello".to_string()));
}

#[test]
fn validated_changes_then_apply_cleanly() {
    // A change set that passes validation is applied without being refused.
    let text = "l1\nl2\nl3\nl4\nl5";
    let changes = vec![
        LineChange::InsertManyBefore { line_number: 2, new_lines: vec!["n1".to_string(), "n2".to_string()] },
        LineChange::DeleteMany { start_line: 4, end_line: 5 },
        replace(3, "l3", "L3"),
    ];
    let mut store = store_with("r/f", text);
    FileModifier::validate_file_modifications(&store, "r", "f", &changes).expect("valid");
    FileModifier::apply_file_modifications(&mut store, "r", "f", &changes).expect("applies");
    assert_eq!(store.read("r/f"), Ok("l1\nn1\nn2\nl2\nL3".to_string()));
}

#[test]
fn block_goes_right_after_its_line() {
    let mut store = store_with("r/f", "a\nb\nc");
    let changes = vec![LineChange::InsertManyAfter { line_number: 1, new_lines: vec!["x".to_string(), "y".to_string()] }];
    FileModifier::validate_file_modifications(&store, "r", "f", &changes).expect("valid");
    FileModifier::apply_file_modifications(&mut store, "r", "f", &changes).expect("applies");
    assert_eq!(store.read("r/f"), Ok("a\nx\ny\nb\nc".to_string()));
}

#[test]
fn block_after_the_last_line_ends_the_file() {
    let mut store = store_with("r/f", "a\nb");
    let changes = vec![LineChange::InsertManyAfter { line_number: 2, new_lines: vec!["z".to_string()] }];
    FileModifier::apply_file_modifications(&mut store, "r", "f", &changes).expect("applies");
    assert_eq!(store.read("r/f"), Ok("a\nb\nz".to_string()));
    let changes = vec![LineChange::InsertManyAfter { line_number: 0, new_lines: vec!["top".to_string()] }];
    FileModifier::apply_file_modifications_with_smart_validation(&mut store, "r", "f", &changes).expect("applies");
    assert_eq!(store.read("r/f"), Ok("top\na\nb\nz".to_string()));
}
