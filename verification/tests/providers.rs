use aiced::config::RepositoryConfig;
use aiced::errors::AicedError;
use aiced::helpers::Message;
use aiced::providers::{
    anthropic_messages, anthropic_status_error, chat_messages, chunk_item, endpoint_url, estimated_tokens, take_lines,
    event_payload, extract_data, post_outcome, status_error, stream_event_item, ApiResponse, ChatProvider,
    ChunkError, ChunkFields, PostReply, StreamEventData,
};
use aiced::scan::RepoScanner;
use aiced::stream::{AiProviderError, AnthropicError};

fn fields() -> ChunkFields {
    ChunkFields { first_text: None, first_finish_reason: None, input_tokens: None, output_tokens: None, error: None }
}

fn system_reason(e: AicedError) -> String {
    match e {
        AicedError::SystemError { operation, reason } => {
            assert_eq!(operation, "analysis Error");
            reason
        }
        other => panic!("unexpected {:?}", other),
    }
}

#[test]
fn message_stop_lines_carry_no_event() {
    assert_eq!(event_payload("data: {\"type\":\"message_stop\"}"), None);
    assert_eq!(event_payload("data: {\"type\":\"ping\"}"), Some("{\"type\":\"ping\"}".to_string()));
    assert_eq!(event_payload("data: [DONE]"), None);
}

#[test]
fn stream_events_become_items() {
    let start = stream_event_item(Ok(StreamEventData::MessageStart { input_tokens: 10, output_tokens: 1 }))
        .ok()
        .expect("item");
    assert_eq!((start.input_tokens, start.output_tokens), (Some(10), Some(1)));
    assert!(!start.is_complete);
    let delta = stream_event_item(Ok(StreamEventData::ContentBlockDelta {
        delta_type: "input_json_delta".to_string(),
        text: Some("ignored".to_string()),
    }))
    .ok()
    .expect("item");
    assert_eq!(delta.content, "");
    let end = stream_event_item(Ok(StreamEventData::MessageDelta {
        stop_reason: Some("max_tokens".to_string()),
        output_tokens: 42,
    }))
    .ok()
    .expect("item");
    assert!(end.is_complete);
    assert_eq!(end.stop_reason.as_deref(), Some("max_tokens"));
    assert_eq!(end.output_tokens, Some(42));
    let stop = stream_event_item(Ok(StreamEventData::MessageStop)).ok().expect("item");
    assert!(stop.is_complete);
    let ping = stream_event_item(Ok(StreamEventData::Ping)).ok().expect("item");
    assert!(!ping.is_complete && ping.content.is_empty());
    match stream_event_item(Ok(StreamEventData::Error { error_type: "overloaded_error".to_string(), message: "busy".to_string() })) {
        Err(e) => assert_eq!(e.message(), "Anthropic API Error: overloaded_error: busy"),
        Ok(_) => panic!("expected an error"),
    }
    match stream_event_item(Err("expected value".to_string())) {
        Err(AiProviderError::SerializationError(m)) => assert_eq!(m, "Failed to parse event: expected value"),
        _ => panic!("expected a serialization error"),
    }
}

#[test]
fn openai_chunks() {
    let mut c = fields();
    c.first_text = Some("Hi".to_string());
    c.first_finish_reason = Some("stop".to_string());
    let item = chunk_item(ChatProvider::OpenAI, Ok(c)).expect("some").ok().expect("ok");
    assert_eq!(item.content, "Hi");
    assert!(!item.is_complete);

    let mut c = fields();
    c.first_finish_reason = Some("null".to_string());
    c.input_tokens = Some(3);
    assert!(chunk_item(ChatProvider::OpenAI, Ok(c)).is_none());

    let mut c = fields();
    c.first_finish_reason = Some("length".to_string());
    let item = chunk_item(ChatProvider::OpenAI, Ok(c)).expect("some").ok().expect("ok");
    assert!(item.is_complete);
    assert_eq!(item.stop_reason.as_deref(), Some("length"));

    let mut c = fields();
    c.error = Some(ChunkError { message: None, error_type: None, code: None });
    match chunk_item(ChatProvider::OpenAI, Ok(c)) {
        Some(Err(AiProviderError::ApiError(m))) => assert_eq!(m, "api_error: Unknown error"),
        _ => panic!("expected an error"),
    }
    match chunk_item(ChatProvider::OpenAI, Err("eof".to_string())) {
        Some(Err(AiProviderError::SerializationError(m))) => assert_eq!(m, "Failed to parse OpenAI event: eof"),
        _ => panic!("expected a serialization error"),
    }
}

#[test]
fn deepseek_and_gemini_chunks() {
    let mut c = fields();
    c.input_tokens = Some(5);
    c.output_tokens = Some((1u64 << 32) + 7);
    let item = chunk_item(ChatProvider::DeepSeek, Ok(c)).expect("some").ok().expect("ok");
    assert_eq!((item.input_tokens, item.output_tokens), (Some(5), Some(7)));

    let mut c = fields();
    c.first_finish_reason = Some("null".to_string());
    let item = chunk_item(ChatProvider::Gemini, Ok(c)).expect("some").ok().expect("ok");
    assert!(item.is_complete);

    let mut c = fields();
    c.error = Some(ChunkError { message: Some("quota".to_string()), error_type: None, code: Some(-429) });
    match chunk_item(ChatProvider::Gemini, Ok(c)) {
        Some(Err(AiProviderError::ApiError(m))) => assert_eq!(m, "Code -429: quota"),
        _ => panic!("expected an error"),
    }
    match chunk_item(ChatProvider::Gemini, Err("bad".to_string())) {
        Some(Err(AiProviderError::SerializationError(m))) => assert_eq!(m, "Failed to parse Gemini event: bad"),
        _ => panic!("expected a serialization error"),
    }
    assert!(chunk_item(ChatProvider::DeepSeek, Ok(fields())).is_none());
}

#[test]
fn chat_message_lists() {
    let ms = chat_messages("system", "be brief".to_string(), vec!["a".to_string(), "b".to_string()]);
    let pairs: Vec<(String, String)> = ms.into_iter().map(|m| (m.role, m.content)).collect();
    assert_eq!(
        pairs,
        vec![
            ("system".to_string(), "be brief".to_string()),
            ("user".to_string(), "a".to_string()),
            ("user".to_string(), "b".to_string())
        ]
    );
    let ms = chat_messages("user", String::new(), vec!["only".to_string()]);
    assert_eq!(ms.len(), 1);
    assert_eq!(ms[0].role, "user");

    let conversation = vec![
        Message { role: "system".to_string(), content: "rules".to_string() },
        Message { role: "assistant".to_string(), content: "ok".to_string() },
    ];
    let ms = anthropic_messages(&conversation);
    assert_eq!(ms[0].role, "user");
    assert_eq!(
        ms[0].content,
        "<system>rules</system>\n\nPlease follow the instructions in the system message above."
    );
    assert_eq!(ms[1].role, "assistant");
    assert_eq!(ms[1].content, "ok");
}

#[test]
fn token_estimate_counts_bytes() {
    assert_eq!(estimated_tokens("abcd", &vec!["efgh".to_string(), "é".to_string()]), 2);
    assert_eq!(estimated_tokens("", &vec![]), 0);
}

#[test]
fn failing_status_errors() {
    match status_error(401, "401 Unauthorized", "bad key".to_string(), true, true) {
        AiProviderError::AuthenticationError(m) => assert_eq!(m, "bad key"),
        _ => panic!("expected an authentication error"),
    }
    match status_error(429, "429 Too Many Requests", "slow down".to_string(), true, false) {
        AiProviderError::ApiError(m) => assert_eq!(m, "Rate limit exceeded: slow down"),
        _ => panic!("expected an API error"),
    }
    match status_error(429, "429 Too Many Requests", "slow down".to_string(), false, true) {
        AiProviderError::ApiError(m) => assert_eq!(m, "HTTP 429 Too Many Requests: slow down"),
        _ => panic!("expected an API error"),
    }
    match status_error(403, "403 Forbidden", "no".to_string(), false, true) {
        AiProviderError::ApiError(m) => assert_eq!(m, "Forbidden: no"),
        _ => panic!("expected an API error"),
    }
    match anthropic_status_error(500, "500 Internal Server Error", "oops".to_string()) {
        AnthropicError::ApiError(m) => assert_eq!(m, "HTTP 500 Internal Server Error: oops"),
        _ => panic!("expected an API error"),
    }
}

#[test]
fn analysis_service_requests() {
    assert_eq!(endpoint_url("https://host/api//", "//files_filter"), "https://host/api/files_filter");
    assert_eq!(endpoint_url("", ""), "/");

    let ok: ApiResponse<u32> = ApiResponse { success: true, message: String::new(), data: Some(7) };
    let got = post_outcome("File filtering", PostReply::Success { decoded: Some(ok) }).ok().expect("ok");
    assert_eq!(extract_data("File filtering", got).ok(), Some(7));

    let refused: ApiResponse<u32> = ApiResponse { success: false, message: "quota".to_string(), data: None };
    let e = post_outcome("Analysis", PostReply::Success { decoded: Some(refused) }).err().expect("err");
    assert_eq!(system_reason(e), "Analysis failed: quota");
    let e = post_outcome::<u32>("Analysis", PostReply::NotSent).err().expect("err");
    assert_eq!(system_reason(e), "Failed to connect to Analysis server");
    let e = post_outcome::<u32>("Analysis", PostReply::Success { decoded: None }).err().expect("err");
    assert_eq!(system_reason(e), "Invalid response format from Analysis server");
    let e = post_outcome::<u32>(
        "Analysis",
        PostReply::Failure { status: 408, status_text: "408 Request Timeout".to_string(), body: String::new() },
    )
    .err()
    .expect("err");
    assert_eq!(system_reason(e), "Analysis request timed out (408)");
    let e = post_outcome::<u32>(
        "Analysis",
        PostReply::Failure { status: 502, status_text: "502 Bad Gateway".to_string(), body: "down".to_string() },
    )
    .err()
    .expect("err");
    assert_eq!(system_reason(e), "Analysis request failed with status 502 Bad Gateway: down");
    let empty: ApiResponse<u32> = ApiResponse { success: true, message: String::new(), data: None };
    let e = extract_data("Analysis", empty).err().expect("err");
    assert_eq!(system_reason(e), "API response missing data field for Analysis");
}

#[test]
fn scan_patterns_combine_defaults_and_gitignore() {
    let scanner = RepoScanner::new(RepositoryConfig {
        name: "demo".to_string(),
        path: "/repo".to_string(),
        branch: None,
        auto_pull: false,
        auto_pr: false,
    });
    let without = scanner.load_patterns(None);
    assert_eq!(without.len(), 36);
    assert_eq!(without[35], ".git/");
    let with = scanner.load_patterns(Some("target/\n# c\n"));
    assert_eq!(with.len(), 37);
    assert_eq!(with[36], "target/");
}

#[test]
fn stream_buffer_gives_up_complete_lines() {
    let mut buffer = "data: a\n\ndata: b\ndata: c".to_string();
    let lines = take_lines(&mut buffer);
    assert_eq!(lines, vec!["data: a".to_string(), String::new(), "data: b".to_string()]);
    assert_eq!(buffer, "data: c");
    buffer.push_str("d\n");
    assert_eq!(take_lines(&mut buffer), vec!["data: cd".to_string()]);
    assert_eq!(buffer, "");
}
