use aiced::analysis_parser::AnalysisParser;
use aiced::custom_parser::Parser;
use aiced::errors::AicedError;
use aiced::file_change::FileChange;
use aiced::line_change::LineChange;
use aiced::stack_recommendation_parser::StackRecommendationParser;

fn report_with_stack() -> String {
    [
        "TECHNOLOGY_STACK:",
        "PRIMARY_LANGUAGE: Rust",
        "FRAMEWORK: Axum",
        "DEPENDENCIES:",
        "tokio: 1.0",
        "serde: 1.0",
        "tokio: 1.38",
        "END_DEPENDENCIES",
        "CRITICAL_CONFIGS:",
        "Cargo.toml: manifest",
        "END_CRITICAL_CONFIGS",
        "END_TECHNOLOGY_STACK",
        "ANALYSIS_SUMMARY:",
        "  Two problems found.  ",
        "",
        "One is a bug.",
        "CHANGE: modify_file",
        "FILE: src/main.rs",
        "REASON: off by one",
        "SEVERITY: high",
        "CATEGORY: BUG",
        "ACTION: replace",
        "LINE: 2",
        "OLD: let x = 1;",
        "NEW: let x = 2;",
        "ACTION: delete_many",
        "START_LINE: 4",
        "END_LINE: 5",
        "ACTION: insert_many_before",
        "LINE: 1",
        "NEW_LINES:",
        "use std::io;",
        "use std::fs;",
        "END_NEW_LINES",
        "END_CHANGE",
        "CHANGE: create_file",
        "FILE: src/new.rs",
        "REASON: split module",
        "SEVERITY: low",
        "CATEGORY: ARCHITECTURE",
        "CONTENT:",
        "fn a() {}",
        "  fn b() {}",
        "END_CONTENT",
        "END_CHANGE",
        "CHANGE: delete_file",
        "FILE: src/old.rs",
        "REASON: unused",
        "SEVERITY: medium",
        "CATEGORY: CLEAN_CODE",
        "END_CHANGE",
    ]
    .join("\n")
}

#[test]
fn analysis_report_with_stack_parses() {
    let text = report_with_stack();
    let mut parser = AnalysisParser::new(&text);
    let response = parser.parse().expect("report parses");
    let stack = response.technology_stack.expect("stack present");
    assert_eq!(stack.primary_language.as_deref(), Some("Rust"));
    assert_eq!(stack.framework.as_deref(), Some("Axum"));
    assert_eq!(stack.runtime, None);
    assert_eq!(
        stack.dependencies,
        vec![
            ("tokio".to_string(), "1.38".to_string()),
            ("serde".to_string(), "1.0".to_string())
        ]
    );
    assert_eq!(stack.critical_configs, vec![("Cargo.toml".to_string(), "manifest".to_string())]);
    assert_eq!(response.analysis_summary, "Two problems found.\nOne is a bug.");
    assert_eq!(response.changes.len(), 3);

    match &response.changes[0] {
        FileChange::ModifyFile { file_path, reason, severity, category, line_changes } => {
            assert_eq!(file_path, "src/main.rs");
            assert_eq!(reason, "off by one");
            assert_eq!(severity, "high");
            assert_eq!(category, "BUG");
            assert_eq!(line_changes.len(), 3);
            match &line_changes[0] {
                LineChange::Replace { line_number, old_content, new_content } => {
                    assert_eq!(*line_number, 2);
                    assert_eq!(old_content, "let x = 1;");
                    assert_eq!(new_content, "let x = 2;");
                }
                other => panic!("unexpected {:?}", other),
            }
            match &line_changes[1] {
                LineChange::DeleteMany { start_line, end_line } => {
                    assert_eq!((*start_line, *end_line), (4, 5));
                }
                other => panic!("unexpected {:?}", other),
            }
            match &line_changes[2] {
                LineChange::InsertManyBefore { line_number, new_lines } => {
                    assert_eq!(*line_number, 1);
                    assert_eq!(new_lines, &vec!["use std::io;".to_string(), "use std::fs;".to_string()]);
                }
                other => panic!("unexpected {:?}", other),
            }
        }
        other => panic!("unexpected {:?}", other),
    }
    match &response.changes[1] {
        FileChange::CreateFile { file_path, content, category, .. } => {
            assert_eq!(file_path, "src/new.rs");
            assert_eq!(category, "ARCHITECTURE");
            assert_eq!(content, "fn a() {}\n  fn b() {}");
        }
        other => panic!("unexpected {:?}", other),
    }
    match &response.changes[2] {
        FileChange::DeleteFile { file_path, severity, .. } => {
            assert_eq!(file_path, "src/old.rs");
            assert_eq!(severity, "medium");
        }
        other => panic!("unexpected {:?}", other),
    }
}

#[test]
fn analysis_report_without_summary_is_refused() {
    let mut parser = AnalysisParser::new("CHANGE: delete_file\nEND_CHANGE");
    match parser.parse() {
        Err(AicedError::ParseError { content_type, line_number, reason, context }) => {
            assert_eq!(content_type, "ParseError");
            assert_eq!(line_number, Some(2));
            assert_eq!(reason, "ParseError");
            assert_eq!(context.as_deref(), Some("Analysis summary marker not found"));
        }
        other => panic!("unexpected {:?}", other.map(|r| r.changes.len())),
    }
}

#[test]
fn analysis_summary_with_no_text_is_refused() {
    let mut parser = AnalysisParser::new("ANALYSIS_SUMMARY:\n\nCHANGE: delete_file");
    match parser.parse() {
        Err(AicedError::ParseError { context, line_number, .. }) => {
            assert_eq!(context.as_deref(), Some("Analysis summary marker not found"));
            assert_eq!(line_number, Some(2));
        }
        other => panic!("unexpected {:?}", other.map(|r| r.changes.len())),
    }
}

#[test]
fn analysis_change_with_unknown_type_is_skipped() {
    let text = "ANALYSIS_SUMMARY:\nok\nCHANGE: rename_file\nFILE: a\nEND_CHANGE\nCHANGE: delete_file\nFILE: b\nREASON: r\nSEVERITY: low\nCATEGORY: BUG\nEND_CHANGE";
    let mut parser = AnalysisParser::new(text);
    let response = parser.parse().expect("report parses");
    assert!(response.technology_stack.is_none());
    assert_eq!(response.analysis_summary, "ok");
    assert_eq!(response.changes.len(), 1);
    assert_eq!(response.changes[0].get_file_path(), "b");
}

#[test]
fn analysis_change_missing_a_field_is_skipped() {
    let text = "ANALYSIS_SUMMARY:\nok\nCHANGE: delete_file\nFILE: a\nREASON: r\nSEVERITY: low\nEND_CHANGE";
    let mut parser = AnalysisParser::new(text);
    let response = parser.parse().expect("report parses");
    assert_eq!(response.changes.len(), 0);
}

#[test]
fn analysis_bad_action_is_skipped_and_others_kept() {
    let text = [
        "ANALYSIS_SUMMARY:",
        "ok",
        "CHANGE: modify_file",
        "FILE: f.rs",
        "REASON: r",
        "SEVERITY: low",
        "CATEGORY: BUG",
        "ACTION: replace",
        "LINE: two",
        "OLD: a",
        "NEW: b",
        "ACTION: delete",
        "LINE: 3",
        "ACTION: explode",
        "LINE: 1",
        "ACTION: insert_after",
        "LINE: 0",
        "NEW: top",
        "END_CHANGE",
    ]
    .join("\n");
    let mut parser = AnalysisParser::new(&text);
    let response = parser.parse().expect("report parses");
    assert_eq!(response.changes.len(), 1);
    let lcs = response.changes[0].get_line_changes().expect("modification");
    assert_eq!(lcs.len(), 2);
    assert!(matches!(lcs[0], LineChange::Delete { line_number: 3 }));
    match &lcs[1] {
        LineChange::InsertAfter { line_number, new_content } => {
            assert_eq!(*line_number, 0);
            assert_eq!(new_content, "top");
        }
        other => panic!("unexpected {:?}", other),
    }
}

#[test]
fn analysis_reversed_range_is_skipped() {
    let text = "ANALYSIS_SUMMARY:\nok\nCHANGE: modify_file\nFILE: f\nREASON: r\nSEVERITY: low\nCATEGORY: BUG\nACTION: delete_many\nSTART_LINE: 5\nEND_LINE: 2\nACTION: delete\nLINE: 1\nEND_CHANGE";
    let mut parser = AnalysisParser::new(text);
    let response = parser.parse().expect("report parses");
    // The recovery steps over the line after the refused action, so the
    // action that directly follows it is passed over too.
    let lcs = response.changes[0].get_line_changes().expect("modification");
    assert_eq!(lcs.len(), 0);
}

#[test]
fn analysis_reversed_range_last_loses_its_change() {
    let text = "ANALYSIS_SUMMARY:\nok\nCHANGE: modify_file\nFILE: f\nREASON: r\nSEVERITY: low\nCATEGORY: BUG\nACTION: delete_many\nSTART_LINE: 5\nEND_LINE: 2\nEND_CHANGE";
    let mut parser = AnalysisParser::new(text);
    let response = parser.parse().expect("report parses");
    assert_eq!(response.changes.len(), 0);
}

#[test]
fn analysis_replace_range_parses() {
    let text = "ANALYSIS_SUMMARY:\nok\nCHANGE: modify_file\nFILE: f\nREASON: r\nSEVERITY: low\nCATEGORY: BUG\nACTION: replace_range\nSTART_LINE: 2\nEND_LINE: 3\nOLD_LINES:\nb\nc\nEND_OLD_LINES\nNEW_LINES:\nx\nEND_NEW_LINES\nEND_CHANGE";
    let mut parser = AnalysisParser::new(text);
    let response = parser.parse().expect("report parses");
    let lcs = response.changes[0].get_line_changes().expect("modification");
    match &lcs[0] {
        LineChange::ReplaceRange { start_line, end_line, old_content, new_content } => {
            assert_eq!((*start_line, *end_line), (2, 3));
            assert_eq!(old_content, &vec!["b".to_string(), "c".to_string()]);
            assert_eq!(new_content, &vec!["x".to_string()]);
        }
        other => panic!("unexpected {:?}", other),
    }
}

#[test]
fn analysis_stack_field_with_leading_space_is_refused() {
    let text = "TECHNOLOGY_STACK:\n  PRIMARY_LANGUAGE: Go\nEND_TECHNOLOGY_STACK\nANALYSIS_SUMMARY:\nok";
    let mut parser = AnalysisParser::new(text);
    match parser.parse() {
        Err(AicedError::ParseError { content_type, line_number, context, .. }) => {
            assert_eq!(content_type, "InvalidFormat");
            assert_eq!(line_number, Some(2));
            assert_eq!(context.as_deref(), Some("PRIMARY_LANGUAGE:"));
        }
        other => panic!("unexpected {:?}", other.map(|r| r.changes.len())),
    }
}

#[test]
fn stack_recommendation_parses() {
    let text = [
        "Here is my advice.",
        "RECOMMENDED_STACK:",
        "PRIMARY_LANGUAGE: TypeScript",
        "LANGUAGE_REASON: typed",
        "FRAMEWORK_REASON: popular",
        "FRAMEWORK: Next.js",
        "MAINTENANCE_EFFORT: low",
        "RECOMMENDED_DEPENDENCIES:",
        "zod: 3.0 - validation",
        "react: 18",
        "END_RECOMMENDED_DEPENDENCIES",
        "ESSENTIAL_CONFIGS:",
        "tsconfig.json: strict mode",
        "END_ESSENTIAL_CONFIGS",
        "PROJECT_STRUCTURE:",
        "src/: sources",
        "END_PROJECT_STRUCTURE",
        "END_RECOMMENDED_STACK",
    ]
    .join("\n");
    let mut parser = StackRecommendationParser::new(&text);
    let rec = parser.parse().expect("recommendation parses");
    assert_eq!(rec.primary_language.as_deref(), Some("TypeScript"));
    assert_eq!(rec.language_reason.as_deref(), Some("typed"));
    assert_eq!(rec.framework.as_deref(), Some("Next.js"));
    assert_eq!(rec.framework_reason.as_deref(), Some("popular"));
    assert_eq!(rec.maintenance_effort.as_deref(), Some("low"));
    assert_eq!(rec.database, None);
    assert_eq!(
        rec.recommended_dependencies,
        vec![
            ("zod".to_string(), "3.0 - validation".to_string()),
            ("react".to_string(), "18".to_string())
        ]
    );
    assert_eq!(rec.essential_configs, vec![("tsconfig.json".to_string(), "strict mode".to_string())]);
    assert_eq!(rec.project_structure, vec![("src/".to_string(), "sources".to_string())]);
    assert!(rec.development_workflow.is_empty());
}

#[test]
fn stack_recommendation_without_marker_is_refused() {
    let mut parser = StackRecommendationParser::new("nothing here\nat all");
    match parser.parse() {
        Err(AicedError::ParseError { content_type, line_number, context, .. }) => {
            assert_eq!(content_type, "Recommended stack");
            assert_eq!(line_number, Some(2));
            assert_eq!(context.as_deref(), Some("Recommended stack marker not found"));
        }
        other => panic!("unexpected {:?}", other.map(|r| r.primary_language)),
    }
}

#[test]
fn stack_recommendation_indented_field_is_refused() {
    let mut parser = StackRecommendationParser::new("RECOMMENDED_STACK:\n  ORM: Prisma\nEND_RECOMMENDED_STACK");
    match parser.parse() {
        Err(AicedError::ParseError { content_type, line_number, context, .. }) => {
            assert_eq!(content_type, "InvalidFormat");
            assert_eq!(line_number, Some(1));
            assert_eq!(context.as_deref(), Some("  ORM: Prisma"));
        }
        other => panic!("unexpected {:?}", other.map(|r| r.orm)),
    }
}

#[test]
fn custom_parser_reads_a_modification() {
    let text = "ANALYSIS_SUMMARY:\nLooks fine.\nCHANGE: modify_file\nFILE: a.rs\nREASON: tidy\nSEVERITY: low\nACTION: delete\nLINE: 4\nEND_CHANGE";
    let mut parser = Parser::new(text);
    let response = parser.parse().expect("report parses");
    assert_eq!(response.analysis_summary, "Looks fine.");
    assert_eq!(response.changes.len(), 1);
    match &response.changes[0] {
        FileChange::ModifyFile { file_path, category, line_changes, .. } => {
            assert_eq!(file_path, "a.rs");
            assert_eq!(category, "");
            assert!(matches!(line_changes[0], LineChange::Delete { line_number: 4 }));
        }
        other => panic!("unexpected {:?}", other),
    }
}

#[test]
fn custom_parser_needs_the_summary_first() {
    let mut parser = Parser::new("hello\nANALYSIS_SUMMARY:");
    match parser.parse() {
        Err(message) => assert_eq!(
            message,
            "Expected 'ANALYSIS_SUMMARY:' at line 1, found 'hello'\nContext: Previous line: '', Next line: 'ANALYSIS_SUMMARY:'"
        ),
        Ok(r) => panic!("unexpected success with {} changes", r.changes.len()),
    }
}

#[test]
fn custom_parser_reads_a_deletion_block() {
    let text = "ANALYSIS_SUMMARY:\nok\nCHANGE: delete_file\nFILE: a.rs\nREASON: unused\nSEVERITY: low\nEND_CHANGE";
    let mut parser = Parser::new(text);
    let response = parser.parse().expect("report parses");
    assert_eq!(response.changes.len(), 1);
    match &response.changes[0] {
        FileChange::DeleteFile { file_path, reason, severity, .. } => {
            assert_eq!(file_path, "a.rs");
            assert_eq!(reason, "unused");
            assert_eq!(severity, "low");
        }
        other => panic!("unexpected {:?}", other),
    }
}
