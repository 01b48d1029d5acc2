use aiced::file_modifier::FileModifier;
use aiced::line_change::LineChange;
use aiced::preview::FileChangeLogger;
use aiced::store::FileStore;

fn store_with(path: &str, text: &str) -> FileStore {
    let mut store = FileStore::new();
    store.add(path.to_string(), true, Some(text.to_string()), String::new());
    store
}

#[test]
fn insert_then_delete_gives_back_the_file() {
    let mut store = store_with("r/f", "a\nb\nc");
    let insert = vec![LineChange::InsertBefore { line_number: 2, new_content: "new".to_string() }];
    FileModifier::apply_file_modifications(&mut store, "r", "f", &insert).expect("inserted");
    assert_eq!(store.read("r/f"), Ok("a\nnew\nb\nc".to_string()));
    let delete = vec![LineChange::Delete { line_number: 2 }];
    FileModifier::apply_file_modifications(&mut store, "r", "f", &delete).expect("deleted");
    assert_eq!(store.read("r/f"), Ok("a\nb\nc".to_string()));
}

#[test]
fn replacing_a_line_by_itself_changes_nothing() {
    let mut store = store_with("r/f", "a\nb\nc");
    let same = vec![LineChange::Replace { line_number: 3, old_content: "c".to_string(), new_content: "c".to_string() }];
    FileModifier::apply_file_modifications(&mut store, "r", "f", &same).expect("applied");
    assert_eq!(store.read("r/f"), Ok("a\nb\nc".to_string()));
}

#[test]
fn edits_on_one_line_keep_their_order() {
    let mut store = store_with("r/f", "a");
    let changes = vec![
        LineChange::InsertBefore { line_number: 1, new_content: "x".to_string() },
        LineChange::InsertBefore { line_number: 1, new_content: "y".to_string() },
    ];
    FileModifier::apply_file_modifications(&mut store, "r", "f", &changes).expect("applied");
    assert_eq!(store.read("r/f"), Ok("x\ny\na".to_string()));
}

#[test]
fn conflicts_are_symmetric_on_values() {
    let a = LineChange::ReplaceRange {
        start_line: 2,
        end_line: 5,
        old_content: vec!["p".to_string()],
        new_content: vec!["q".to_string()],
    };
    let b = LineChange::InsertAfter { line_number: 5, new_content: "z".to_string() };
    let c = LineChange::Delete { line_number: 6 };
    assert_eq!(a.conflicts_with(&b), b.conflicts_with(&a));
    assert!(a.conflicts_with(&b));
    assert_eq!(a.conflicts_with(&c), c.conflicts_with(&a));
    assert!(!a.conflicts_with(&c));
}

#[test]
fn truncated_lines_fit_their_width() {
    for width in 0..12 {
        let cut = FileChangeLogger::truncate_line("abcdefghijklmnop", width);
        assert!(cut.len() <= if width > 3 { width } else { 3 });
    }
}

#[test]
fn validated_changes_are_applied() {
    let text = "one\ntwo\nthree";
    let changes = vec![
        LineChange::Delete { line_number: 1 },
        LineChange::InsertAfter { line_number: 3, new_content: "four".to_string() },
        LineChange::Replace { line_number: 2, old_content: "two".to_string(), new_content: "2".to_string() },
    ];
    let mut store = store_with("r/f", text);
    assert!(FileModifier::validate_file_modifications(&store, "r", "f", &changes).is_ok());
    assert!(FileModifier::apply_file_modifications(&mut store, "r", "f", &changes).is_ok());
    assert_eq!(store.read("r/f"), Ok("2\nthree\nfour".to_string()));
}
