use aiced::config::{Config, ConfigManager, RepositoryConfig};
use aiced::errors::{AicedError, ErrorHandler, ErrorSeverity};
use aiced::file_change::FileChange;
use aiced::helpers::{
    add_continuation_messages, generate_prompt, sleep_duration_millis, sleep_duration_secs, timeout_duration,
    ConfigHelper, FileInfo, Message,
};
use aiced::line_change::LineChange;
use aiced::preview::FileChangeLogger;
use aiced::scan::RepoScanner;
use aiced::stream::{
    anthropic_item, sse_payload, stream_error, AiProviderError, AnthropicError, AnthropicEvent, RepositoryManager,
    StreamItem, StreamResult,
};
use aiced::text::{decimal_string, line_count, parse_usize_chars, to_chars};

fn repo_config(name: &str, path: &str) -> RepositoryConfig {
    RepositoryConfig { name: name.to_string(), path: path.to_string(), branch: None, auto_pull: false, auto_pr: false }
}

fn change(severity: &str, category: &str) -> FileChange {
    FileChange::DeleteFile {
        file_path: "x".to_string(),
        reason: "r".to_string(),
        severity: severity.to_string(),
        category: category.to_string(),
    }
}

#[test]
fn error_messages_by_variant() {
    let e = AicedError::config_error("bad key", Some("model"), Some("use a known model"));
    assert_eq!(
        e.user_message(),
        "Configuration Error: bad key (field: model)\n💡 Suggestion: use a known model"
    );
    assert!(e.is_recoverable());
    assert_eq!(e.severity(), ErrorSeverity::Low);

    let e = AicedError::system_error("git pull", "Failed to pull latest changes");
    assert_eq!(e.user_message(), "System error during git pull: Failed to pull latest changes");
    assert!(!e.is_recoverable());
    assert_eq!(e.severity(), ErrorSeverity::Critical);

    let e = AicedError::parse_error("JSON", Some(3), "bad token", Some("near ]"));
    assert_eq!(
        e.user_message(),
        "Parse error in JSON: bad token (line 3)\nContext: near ]\n💡 Check the format and syntax of the input"
    );
    assert_eq!(e.severity(), ErrorSeverity::Medium);

    let e = AicedError::file_error("a.rs", "write", "denied");
    assert_eq!(
        e.user_message(),
        "File operation 'write' failed for 'a.rs': denied\n💡 Check file permissions and path"
    );
    assert_eq!(e.severity(), ErrorSeverity::High);

    let e = AicedError::RepositoryNotFound { name: "x".to_string(), available: vec!["a".to_string(), "b".to_string()] };
    assert_eq!(e.user_message(), "Repository 'x' not found\n💡 Available repositories: a, b");

    let e = AicedError::NetworkError {
        operation: "HTTP request".to_string(),
        url: Some("https://example.org".to_string()),
        status_code: Some(503),
        reason: "unavailable".to_string(),
    };
    assert_eq!(
        e.user_message(),
        "Network error during HTTP request: unavailable (URL: https://example.org) (Status: 503)\n💡 Check your internet connection and try again"
    );
    assert!(e.is_recoverable());
}

#[test]
fn grouped_errors_take_the_highest_severity() {
    let e = AicedError::MultipleErrors {
        errors: vec![
            AicedError::validation_error("f", "v", "c", None),
            AicedError::file_error("p", "read", "gone"),
        ],
        context: "apply".to_string(),
    };
    assert_eq!(e.severity(), ErrorSeverity::High);
    assert!(e.is_recoverable());
    assert_eq!(
        e.user_message(),
        "Multiple errors occurred during apply:\n  1. Validation error for field 'f': value 'v' violates constraint 'c'\n  2. File operation 'read' failed for 'p': gone\n     💡 Check file permissions and path\n"
    );
    let empty = AicedError::MultipleErrors { errors: vec![], context: "nothing".to_string() };
    assert_eq!(empty.severity(), ErrorSeverity::Low);
    assert!(!empty.is_recoverable());
}

#[test]
fn severity_names_ranks_and_markers() {
    assert_eq!(ErrorSeverity::Low.rank(), 0);
    assert_eq!(ErrorSeverity::Critical.rank(), 3);
    assert_eq!(ErrorSeverity::High.name(), "HIGH");
    assert_eq!(ErrorSeverity::Medium.emoji(), "🟡");
}

#[test]
fn error_handler_lines() {
    let e = AicedError::validation_error("line_number", "3", "Line Wrong", Some("fix it"));
    let lines = ErrorHandler::handle_error(&e);
    assert_eq!(lines.len(), 4);
    assert!(lines[0].starts_with("[LOW] "));
    assert_eq!(
        lines[1],
        "🟢 Validation error for field 'line_number': value '3' violates constraint 'Line Wrong'\n💡 Suggestion: fix it"
    );
    assert_eq!(lines[2], "ℹ️ Minor issue detected - operation can continue");
    assert_eq!(lines[3], "🔄 This error is recoverable - you can retry the operation");

    let lines = ErrorHandler::handle_error(&AicedError::system_error("x", "y"));
    assert_eq!(lines.len(), 3);
    assert_eq!(lines[2], "🚨 Critical error detected - application may need to exit");
}

#[test]
fn outside_errors_convert() {
    let json_err = serde_json::from_str::<Vec<String>>("[1,").unwrap_err();
    match AicedError::from(json_err) {
        AicedError::ParseError { content_type, line_number, context, .. } => {
            assert_eq!(content_type, "JSON");
            assert_eq!(line_number, Some(1));
            assert!(context.is_none());
        }
        other => panic!("unexpected {:?}", other),
    }
    let toml_err = toml::from_str::<toml::Value>("a = ").unwrap_err();
    match AicedError::from(toml_err) {
        AicedError::ParseError { content_type, line_number, .. } => {
            assert_eq!(content_type, "TOML");
            assert!(line_number.is_none());
        }
        other => panic!("unexpected {:?}", other),
    }
    let io_err = std::io::Error::new(std::io::ErrorKind::NotFound, "missing thing");
    match AicedError::from(io_err) {
        AicedError::SystemError { operation, reason } => {
            assert_eq!(operation, "I/O operation");
            assert_eq!(reason, "missing thing");
        }
        other => panic!("unexpected {:?}", other),
    }
}

#[test]
fn line_change_descriptions_and_ranges() {
    let r = LineChange::Replace { line_number: 3, old_content: "a".to_string(), new_content: "b\nc".to_string() };
    assert!(r.is_multi_line());
    assert_eq!(r.get_affected_line_range(), (3, 4));
    assert_eq!(r.get_description(), "Replace line 3 with multiple lines");
    let d = LineChange::DeleteMany { start_line: 4, end_line: 9 };
    assert_eq!(d.get_description(), "Delete lines 4-9");
    assert!(r.conflicts_with(&d));
    assert!(d.conflicts_with(&r));
    let i = LineChange::InsertManyAfter { line_number: 10, new_lines: vec!["x".to_string(), "y".to_string()] };
    assert_eq!(i.get_affected_line_range(), (10, 11));
    assert_eq!(i.get_description(), "Insert 2 lines after line 10");
    assert!(!i.conflicts_with(&d));
    let copy = i.duplicate();
    assert_eq!(copy.get_description(), i.get_description());
}

#[test]
fn line_change_validation_reasons() {
    assert!(LineChange::Delete { line_number: 2 }.validate().is_ok());
    let bad = LineChange::InsertManyBefore { line_number: 1, new_lines: vec!["a".to_string(), "  ".to_string()] };
    match bad.validate() {
        Err(AicedError::SystemError { operation, reason }) => {
            assert_eq!(operation, "validate line");
            assert_eq!(reason, "Line 2 in new_lines is empty or whitespace-only");
        }
        other => panic!("unexpected {:?}", other),
    }
    let bad = LineChange::DeleteMany { start_line: 5, end_line: 2 };
    match bad.validate() {
        Err(AicedError::SystemError { reason, .. }) => {
            assert_eq!(reason, "Start line cannot be greater than end line")
        }
        other => panic!("unexpected {:?}", other),
    }
}

#[test]
fn file_change_labels() {
    let c = change("critical", "SECURITY");
    assert!(c.is_critical());
    assert!(c.is_high_priority());
    assert!(c.is_security_related());
    assert!(!c.is_bug_fix());
    assert_eq!(c.get_category(), Some("SECURITY"));
    assert!(c.get_line_changes().is_none());
    let c = change("high", "BUGS");
    assert!(!c.is_critical());
    assert!(c.is_high_priority());
    assert!(c.is_bug_fix());
    let c = change("low", "PERFORMANCE");
    assert!(!c.is_high_priority());
    assert!(c.is_performance_improvement());
    assert!(!change("low", "CLEAN_CODE").is_duplicate_code_fix());
    assert!(change("low", "DUPLICATE_CODE").is_duplicate_code_fix());
    assert!(change("low", "ARCHITECTURE").is_architecture_related());
    assert!(change("low", "CLEAN_CODE").is_clean_code_related());
}

#[test]
fn configuration_validation() {
    let config = Config { repositories: vec![repo_config("a", "/a"), repo_config("b", "/b")] };
    assert!(ConfigManager::validate_config(&config, &vec![true, true]).is_ok());
    match ConfigManager::validate_config(&config, &vec![true, false]) {
        Err(AicedError::ConfigurationError { message, field, suggestion }) => {
            assert_eq!(message, "Config Error");
            assert_eq!(field.as_deref(), Some(""));
            assert_eq!(suggestion.as_deref(), Some(""));
        }
        other => panic!("unexpected {:?}", other),
    }
    let twins = Config { repositories: vec![repo_config("a", "/a"), repo_config("a", "/b")] };
    assert!(ConfigManager::validate_config(&twins, &vec![true, true]).is_err());
    let none = Config { repositories: vec![] };
    assert!(ConfigManager::validate_config(&none, &vec![]).is_ok());
}

#[test]
fn helper_defaults_and_durations() {
    assert_eq!(ConfigHelper::default_format(), "custom");
    assert_eq!(ConfigHelper::default_severity_threshold(), "low");
    assert!(ConfigHelper::default_save_analysis());
    assert!(!ConfigHelper::default_verbose());
    let t = timeout_duration(5);
    assert_eq!((t.secs, t.nanos), (300, 0));
    let s = sleep_duration_secs(7);
    assert_eq!((s.secs, s.nanos), (7, 0));
    let m = sleep_duration_millis(2500);
    assert_eq!((m.secs, m.nanos), (2, 500_000_000));
}

#[test]
fn continuation_appends_two_messages() {
    let mut messages = vec![Message { role: "user".to_string(), content: "hi".to_string() }];
    add_continuation_messages(&mut messages, "partial answer");
    assert_eq!(messages.len(), 3);
    assert_eq!(messages[0].content, "hi");
    assert_eq!(messages[1].role, "assistant");
    assert_eq!(messages[1].content, "partial answer");
    assert_eq!(messages[2].role, "user");
    assert_eq!(messages[2].content, "Please continue where you left off.");
}

#[test]
fn prompt_numbers_the_lines_of_each_file() {
    let files = vec![FileInfo { path: "/repo/src/a.rs".to_string(), content: "fn a() {}\nfn b() {}".to_string() }];
    let prompt = generate_prompt(files, "/repo/");
    assert_eq!(
        prompt,
        "File: src/a.rs \nTotal lines: 2\n   1: fn a() {}\n   2: fn b() {}\n\n=== END OF src/a.rs (lines 1-2) ===\n\nCRITICAL: Use EXACT line numbers from above. If you reference line 562, ensure it exists in the file.\n"
    );
}

#[test]
fn truncation_keeps_whole_characters() {
    assert_eq!(FileChangeLogger::truncate_line("short", 10), "short");
    assert_eq!(FileChangeLogger::truncate_line("abcdefghij", 8), "abcde...");
    assert_eq!(FileChangeLogger::truncate_line("abcdefghij", 2), "...");
    assert_eq!(FileChangeLogger::truncate_line("ééé", 5), "é...");
}

#[test]
fn preview_width_and_rows() {
    assert_eq!(FileChangeLogger::preview_column_width(80), 30);
    assert_eq!(FileChangeLogger::preview_column_width(200), 77);
    let lines = vec!["a".to_string(), "b".to_string()];
    let changes = vec![
        LineChange::Delete { line_number: 2 },
        LineChange::Replace { line_number: 1, old_content: "a".to_string(), new_content: "A".to_string() },
    ];
    let out = FileChangeLogger::diff_preview_lines("f.rs", &lines, &changes, 30);
    assert_eq!(out.len(), 5);
    assert_eq!(out[0], "\n🔥 Diff preview for f.rs:");
    assert!(out[1].starts_with("┌"));
    assert!(out[2].contains("🔄 MODIFIED"));
    assert!(out[2].starts_with("│    1 │ a "));
    assert!(out[3].contains("🗑️ DELETED"));
    assert!(out[4].starts_with("└"));
}

#[test]
fn glob_and_gitignore_matching() {
    let scanner = RepoScanner::new(repo_config("demo", "/repo"));
    assert_eq!(scanner.max_concurrent_reads, 10);
    assert!(scanner.matches_glob("main.rs", "*.rs"));
    assert!(!scanner.matches_glob("main.rs", "*.py"));
    assert!(scanner.matches_glob("build_output", "build*"));
    assert!(scanner.matches_glob("test_main.rs", "test*.rs"));
    assert!(scanner.matches_glob("a/node_modules/b", "node_modules"));
    assert!(scanner.matches_gitignore_pattern("target", "target", true, None, "target/"));
    assert!(!scanner.matches_gitignore_pattern("target", "target", false, None, "target/"));
    assert!(scanner.matches_gitignore_pattern("logo.png", "logo.png", false, Some("png"), "*.png"));
    assert!(!scanner.matches_gitignore_pattern("src/x.rs", "x.rs", false, Some("rs"), "/x.rs"));
    assert!(scanner.matches_gitignore_pattern(".env", ".env", false, None, ".env"));
    let patterns = vec!["*.log".to_string(), "dist/".to_string()];
    assert!(scanner.should_ignore_path("a/b.log", "b.log", false, Some("log"), &patterns));
    assert!(scanner.should_ignore_path("dist", "dist", true, None, &patterns));
    assert!(!scanner.should_ignore_path("src/lib.rs", "lib.rs", false, Some("rs"), &patterns));
    assert_eq!(scanner.get_default_image_patterns().len(), 35);
    assert_eq!(scanner.cache_file_name(), "ailyzer/demo.toml");
}

#[test]
fn gitignore_lines_become_patterns() {
    let ps = RepoScanner::gitignore_patterns("# comment\n\ntarget/\n  *.log  \n");
    assert_eq!(ps, vec!["target/".to_string(), "*.log".to_string()]);
}

#[test]
fn filtering_answer_becomes_full_paths() {
    let scanner = RepoScanner::new(repo_config("demo", "/repo/"));
    let kept = scanner.filtered_paths("```json\n[\"src/a.rs\", \"/b.rs\"]\n```");
    assert_eq!(kept, vec!["/repo/src/a.rs".to_string(), "/repo//b.rs".to_string()]);
    assert!(scanner.filtered_paths("not json").is_empty());
}

#[test]
fn stream_lines_and_events() {
    assert_eq!(sse_payload("data: {\"x\":1}"), Some("{\"x\":1}".to_string()));
    assert_eq!(sse_payload("data: [DONE] "), None);
    assert_eq!(sse_payload("event: ping"), None);
    assert_eq!(sse_payload(""), None);

    let item = anthropic_item(Ok(AnthropicEvent::ContentBlockDelta {
        delta_type: "text_delta".to_string(),
        text: Some("Hel".to_string()),
    }))
    .ok()
    .expect("item");
    assert_eq!(item.content, "Hel");
    assert!(!item.is_complete);
    let stop = anthropic_item(Ok(AnthropicEvent::MessageDelta { stop_reason: Some("end_turn".to_string()) }))
        .ok()
        .expect("item");
    assert!(stop.is_complete);
    assert_eq!(stop.stop_reason.as_deref(), Some("end_turn"));
    match anthropic_item(Ok(AnthropicEvent::Error { error_type: "overloaded".to_string(), message: "busy".to_string() })) {
        Err(e) => assert_eq!(e.message(), "Anthropic API Error: overloaded: busy"),
        Ok(_) => panic!("expected an error"),
    }
    match anthropic_item(Err("eof".to_string())) {
        Err(AnthropicError::SerializationError(m)) => assert_eq!(m, "Failed to parse event: eof"),
        _ => panic!("expected a serialization error"),
    }

    let mut result = StreamResult::empty();
    let mut first = StreamItem::new("Hel".to_string());
    first.input_tokens = Some(12);
    assert!(!result.absorb(&first));
    let mut second = StreamItem::complete("lo".to_string(), None);
    second.output_tokens = Some(5);
    assert!(result.absorb(&second));
    assert_eq!(result.content, "Hello");
    assert_eq!((result.input_tokens, result.output_tokens), (12, 5));
}

#[test]
fn provider_errors_and_manager_helpers() {
    assert_eq!(AiProviderError::NetworkError("down".to_string()).message(), "Network Error: down");
    match stream_error("anthropic") {
        AicedError::SystemError { operation, reason } => {
            assert_eq!(operation, "analysis Error");
            assert_eq!(reason, "Failed to connect to anthropic server");
        }
        other => panic!("unexpected {:?}", other),
    }
    let mut r = repo_config("a", "/a");
    assert_eq!(RepositoryManager::pull_arguments(&r), vec!["pull".to_string(), "origin".to_string(), "main".to_string()]);
    r.branch = Some("dev".to_string());
    assert_eq!(RepositoryManager::pull_arguments(&r)[2], "dev");
    assert!(RepositoryManager::pauses_after(0, 2));
    assert!(!RepositoryManager::pauses_after(1, 2));
}

#[test]
fn text_helpers() {
    assert_eq!(decimal_string(0), "0");
    assert_eq!(decimal_string(40213), "40213");
    assert_eq!(parse_usize_chars(&to_chars("+17")), Some(17));
    assert_eq!(parse_usize_chars(&to_chars("x")), None);
    assert_eq!(parse_usize_chars(&to_chars("")), None);
    assert_eq!(line_count("a\nb\r\nc\n"), 3);
    assert_eq!(line_count(""), 0);
}

#[test]
fn offset_law_on_values() {
    // Applying a change moves the line count by the offset it reports.
    let mut store = aiced::store::FileStore::new();
    store.add("r/f".to_string(), true, Some("a\nb".to_string()), String::new());
    let changes = vec![LineChange::InsertManyBefore { line_number: 2, new_lines: vec!["x".to_string(), "y".to_string()] }];
    aiced::file_modifier::FileModifier::apply_file_modifications(&mut store, "r", "f", &changes).expect("applies");
    let text = store.read("r/f").expect("readable");
    assert_eq!(line_count(&text), 4);
}

#[test]
fn new_file_preview_numbers_each_line() {
    let out = FileChangeLogger::new_file_preview_lines("a.rs", "fn main() {}\nx");
    assert_eq!(out.len(), 5);
    assert_eq!(out[0], "\n✨ New file preview for a.rs:");
    assert_eq!(out[1].chars().count(), 102);
    assert!(out[1].contains("🆕 NEW FILE"));
    assert_eq!(out[2], format!("│\x1b[32m➕    1 │ {:<90}\x1b[0m│", "fn main() {}"));
    assert_eq!(out[3], format!("│\x1b[32m➕    2 │ {:<90}\x1b[0m│", "x"));
    assert_eq!(out[4], format!("└{}┘", "─".repeat(100)));
}

#[test]
fn technical_details_is_the_debug_rendering() {
    let e = AicedError::system_error("git pull", "Failed");
    assert_eq!(e.technical_details(), format!("{:?}", e));
    assert_eq!(e.technical_details(), "SystemError { operation: \"git pull\", reason: \"Failed\" }");
}

#[test]
fn error_handler_first_line_holds_the_details() {
    let e = AicedError::system_error("x", "y");
    let lines = ErrorHandler::handle_error(&e);
    assert_eq!(lines[0], format!("[CRITICAL] {:?}", e));
}
