//! Line buffers, errors, tool call arguments, and the scripted provider.

use sned::json::Json;
use sned::providers::errors::{retry_delay_text, DelayUnit};
use sned::providers::mock::{
    MockProvider, MockResponse, MockStreamEvent, MockToolCall,
};
use sned::providers::{
    validate_tool_call_args, ApiStreamChunk, ApiStreamTextChunk, ApiStreamUsageChunk, Header,
    ProviderError, ProviderHttpError, SseLineBuffer,
};

/// The JSON that a text holds.
fn j(text: &str) -> Json {
    sned::json::from_text(text).unwrap()
}

/// A failed response; the delay that its body asks for is turned into milliseconds.
fn http_error(provider: &str, status: u16, body: &str, headers: Vec<Header>) -> ProviderHttpError {
    let delay = retry_delay_text(body).and_then(|d| {
        let n: f64 = d.number.parse().ok()?;
        Some(match d.unit {
            DelayUnit::Seconds => (n * 1000.0) as u64,
            DelayUnit::Minutes => (n * 60_000.0) as u64,
            DelayUnit::Hours => (n * 3_600_000.0) as u64,
        })
    });
    ProviderHttpError::new(
        provider.to_string(),
        "https://api.example.com".to_string(),
        status,
        body.to_string(),
        headers,
        delay,
        None,
    )
}

fn retry_after(value: &str) -> Vec<Header> {
    vec![Header { name: "retry-after".to_string(), value: Some(value.to_string()) }]
}

#[test]
fn test_sse_line_buffer_reassembles_split_line() {
    let mut buffer = SseLineBuffer::default();

    let first = buffer
        .push_chunk(br#"data: {"id":"evt","choices":[{"index":0,"delta":{"content":"hel"#);
    assert!(first.is_empty());

    let second = buffer.push_chunk(b"lo\"},\"finish_reason\":null}]}\n");
    assert_eq!(second.len(), 1);
    assert_eq!(
        second[0],
        r#"data: {"id":"evt","choices":[{"index":0,"delta":{"content":"hello"},"finish_reason":null}]}"#
    );
}

#[test]
fn test_sse_line_buffer_finishes_trailing_line() {
    let mut buffer = SseLineBuffer::default();
    let _ = buffer.push_chunk(br#"data: {"id":"evt"}"#);
    assert_eq!(buffer.finish().as_deref(), Some(r#"data: {"id":"evt"}"#));
}

#[test]
fn test_sse_line_buffer_limits_oversized_line() {
    let mut buffer = SseLineBuffer::with_max_line_length(20);

    // Push 25 bytes without a newline — exceeds the 20-byte limit
    let lines = buffer.push_chunk(b"0123456789012345678901234");
    assert!(lines.is_empty());
    assert_eq!(
        buffer.take_error().as_deref(),
        Some("SSE line exceeded maximum length of 20 bytes")
    );
}

#[test]
fn test_sse_line_buffer_limits_recover_after_oversized() {
    let mut buffer = SseLineBuffer::with_max_line_length(10);

    // Exceed limit
    buffer.push_chunk(b"01234567890");
    assert!(buffer.take_error().is_some());

    // Now send valid data after a newline in a new chunk
    let lines = buffer.push_chunk(b"\nok\n");
    assert_eq!(lines, vec!["ok"]);
}

#[test]
fn test_sse_line_buffer_limits_salvage_complete_lines() {
    let mut buffer = SseLineBuffer::with_max_line_length(20);

    // First line is complete (6 bytes + newline), second line exceeds
    let lines = buffer.push_chunk(b"short\n01234567890123456789");
    assert_eq!(lines, vec!["short"]);
    assert!(buffer.take_error().is_some());
}

#[test]
fn test_provider_http_error_extract_retry_delay_from_gemini_body() {
    let body = r#"{"error": {"details": [{"@type": "type.googleapis.com/google.rpc.RetryInfo", "retryDelay": "5s"}]}}"#;
    let error = http_error("gemini", 429, body, vec![]);
    assert_eq!(error.retry_delay_ms, Some(5000));
}

#[test]
fn test_provider_http_error_extract_retry_delay_from_retry_after_header() {
    let error = http_error("openai", 429, "{}", retry_after("10"));
    assert_eq!(error.retry_delay_ms, Some(10000));
}

#[test]
fn test_provider_http_error_body_takes_precedence_over_header() {
    let body = r#"{"error": {"details": [{"@type": "type.googleapis.com/google.rpc.RetryInfo", "retryDelay": "2s"}]}}"#;
    let error = http_error("gemini", 429, body, retry_after("10"));
    assert_eq!(error.retry_delay_ms, Some(2000));
}

#[test]
fn test_provider_http_error_no_retry_delay_on_non_429() {
    let error = http_error("openai", 500, "{}", vec![]);
    assert_eq!(error.retry_delay_ms, None);
}

#[test]
fn test_provider_error_rate_limit_preserves_retry_delay() {
    let http_error = http_error("openai", 429, "{}", retry_after("5"));
    let provider_error = ProviderError::from_http(&http_error);
    match provider_error {
        ProviderError::RateLimitError { retry_delay_ms, .. } => {
            assert_eq!(retry_delay_ms, Some(5000));
        }
        _ => panic!("Expected RateLimitError"),
    }
}

#[test]
fn test_validate_tool_call_args_ignores_braces_in_strings() {
    let args = r#"{"text": "hello {world}"}"#;
    let result = validate_tool_call_args(args, "test", "unit");
    assert_eq!(result, args);
}

#[test]
fn test_validate_tool_call_args_repairs_missing_close_brace() {
    let args = r#"{"path": "/tmp/test""#;
    let result = validate_tool_call_args(args, "test", "unit");
    let parsed: serde_json::Value = serde_json::from_str(&result).unwrap();
    assert_eq!(parsed["path"], "/tmp/test");
}

#[test]
fn test_validate_tool_call_args_handles_braces_inside_string_values() {
    let args = r#"{"pattern": "{name} placeholder", "count": 5"#;
    let result = validate_tool_call_args(args, "test", "unit");
    let parsed: serde_json::Value = serde_json::from_str(&result).unwrap();
    assert_eq!(parsed["pattern"], "{name} placeholder");
    assert_eq!(parsed["count"], 5);
}

#[test]
fn test_validate_tool_call_args_fallback_on_unrepairable() {
    let args = r#"totally not json"#;
    let result = validate_tool_call_args(args, "test", "unit");
    assert_eq!(result, "{}");
}

#[test]
fn test_validate_tool_call_args_empty_returns_empty_object() {
    assert_eq!(validate_tool_call_args("", "test", "unit"), "{}");
}

#[test]
fn test_validate_tool_call_args_valid_json_passes_through() {
    let args = r#"{"a": 1, "b": [2, 3]}"#;
    assert_eq!(validate_tool_call_args(args, "test", "unit"), args);
}

#[test]
fn each_status_has_its_error() {
    let kind = |status: u16| ProviderError::from_http(&http_error("x", status, "b", vec![]));
    assert!(matches!(kind(401), ProviderError::AuthenticationError(_)));
    assert!(matches!(kind(403), ProviderError::AuthenticationError(_)));
    assert!(matches!(kind(429), ProviderError::RateLimitError { .. }));
    assert!(matches!(kind(404), ProviderError::InvalidRequest(_)));
    assert!(matches!(kind(500), ProviderError::ApiError(_)));
    assert!(matches!(
        ProviderError::from_transport(true, false, false, "t".to_string()),
        ProviderError::NetworkError(_)
    ));
    assert!(matches!(
        ProviderError::from_transport(false, false, false, "t".to_string()),
        ProviderError::UnexpectedError(_)
    ));
    assert_eq!(
        kind(404).message(),
        "invalid request: x POST https://api.example.com failed: 404 Not Found - b"
    );
}

#[test]
fn cuts_in_a_stream_do_not_matter() {
    let bytes = "één\r\ntwee\ndrie\n".as_bytes();
    let mut whole = SseLineBuffer::default();
    let want = whole.push_chunk(bytes);
    for cut in 0..bytes.len() {
        let mut parts = SseLineBuffer::default();
        let mut got = parts.push_chunk(&bytes[..cut]);
        got.extend(parts.push_chunk(&bytes[cut..]));
        assert_eq!(got, want);
    }
}

#[test]
fn validated_arguments_stay_valid() {
    for args in ["", "{", "{\"a\":[1", "no", "[1,2]"] {
        let once = validate_tool_call_args(args, "test", "unit");
        assert_eq!(validate_tool_call_args(&once, "test", "unit"), once);
    }
}

#[test]
fn test_mock_provider_error_response() {
    let mut provider = MockProvider::new(vec![MockResponse::Error("test error".to_string())]);
    if let Err(ProviderError::ApiError(msg)) = provider.create_message() {
        assert_eq!(msg, "test error");
    } else {
        panic!("Expected ApiError");
    }
}

#[test]
fn test_mock_provider_text_response() {
    let mut provider = MockProvider::single_text_response("hello");
    let steps = provider.create_message().unwrap();
    match &steps[0] {
        MockStreamEvent::Chunk(ApiStreamChunk::Text(t)) => assert_eq!(t.text, "hello"),
        _ => panic!("Expected Text chunk"),
    }
}

#[test]
fn test_mock_provider_stream_response() {
    let mut provider = MockProvider::new(vec![MockResponse::Stream(vec![
        MockStreamEvent::Chunk(ApiStreamChunk::Text(ApiStreamTextChunk {
            text: "hello".to_string(),
            id: None,
            signature: None,
        })),
        MockStreamEvent::Delay(1_000_000),
        MockStreamEvent::Chunk(ApiStreamChunk::Usage(ApiStreamUsageChunk {
            input_tokens: 1,
            output_tokens: 2,
            cache_write_tokens: None,
            cache_read_tokens: None,
            reasoning_tokens: None,
            thoughts_token_count: None,
            total_cost: None,
            stop_reason: None,
            id: None,
        })),
    ])]);
    let steps = provider.create_message().unwrap();
    match &steps[0] {
        MockStreamEvent::Chunk(ApiStreamChunk::Text(t)) => assert_eq!(t.text, "hello"),
        _ => panic!("Expected Text chunk"),
    }
    assert!(matches!(steps[1], MockStreamEvent::Delay(1_000_000)));
}

#[test]
fn scripts_end_or_repeat() {
    let mut once = MockProvider::single_text_response("a");
    let mut again = MockProvider::single_text_response_repeat("a");
    assert_eq!(once.create_message().unwrap().len(), 2);
    assert_eq!(once.create_message().unwrap().len(), 0);
    assert_eq!(again.create_message().unwrap().len(), 2);
    assert_eq!(again.create_message().unwrap().len(), 2);
    let mut calls = MockProvider::single_tool_call("c", "f", j(r#"{"a":1}"#));
    match &calls.create_message().unwrap()[0] {
        MockStreamEvent::Chunk(ApiStreamChunk::ToolCalls(t)) => {
            assert_eq!(t.tool_call.function.arguments.as_deref(), Some(r#"{"a":1}"#))
        }
        other => panic!("expected a call, got {other:?}"),
    }
    let mut none = MockProvider::new(vec![MockResponse::ToolCalls(Vec::<MockToolCall>::new())]);
    assert!(none.create_message().unwrap().is_empty());
}

#[test]
fn scroll_scenario_fills_the_screen() {
    let mut provider = MockProvider::approval_scroll_scenario();
    let steps = provider.create_message().unwrap();
    match &steps[0] {
        MockStreamEvent::Chunk(ApiStreamChunk::Text(t)) => {
            assert_eq!(t.text.lines().count(), 30);
            assert!(t.text.starts_with("approval scroll line 01: this output fills the viewport\n"));
        }
        other => panic!("expected text, got {other:?}"),
    }
    assert_eq!(steps.len(), 6);
    assert_eq!(provider.name(), "mock");
    assert_eq!(provider.get_model().id, "mock-model");
}
