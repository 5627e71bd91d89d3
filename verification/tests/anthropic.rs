//! Anthropic: requests and the assembly of responses.

use sned::json::Json;
use sned::providers::anthropic::{get_anthropic_model_info, AnthropicConfig, AnthropicProvider};
use sned::providers::anthropic_stream::{
    anthropic_stream_error, finish_anthropic_sse_to_chunks, parse_anthropic_sse_to_chunks,
    process_anthropic_sse_line, AnthropicToolCallState,
};
use sned::providers::{
    ApiStreamChunk, FunctionDefinition, MessageContent, MessageRole, ModelFamily, ModelInfo,
    ProviderRequest, SseLineBuffer, StorageMessage, ToolDefinition,
};

/// The JSON that a text holds.
fn j(text: &str) -> Json {
    sned::json::from_text(text).unwrap()
}

/// A value of the library as serde reads it.
fn v(j: &Json) -> serde_json::Value {
    serde_json::from_str(&sned::json::to_text(j)).unwrap()
}

fn family() -> ModelFamily {
    ModelFamily { word: "acme".to_string(), title: "Acme".to_string() }
}

#[test]
fn test_anthropic_config() {
    let config = AnthropicConfig {
        api_key: "test-key".to_string(),
        base_url: None,
        model_id: "acme-sonnet-4-6".to_string(),
        model_info: None,
        thinking_budget_tokens: None,
        family: family(),
    };
    let provider = AnthropicProvider::new(config);
    assert_eq!(provider.base_url(), "https://api.anthropic.com/v1");
}

#[test]
fn test_sanitize_model_id() {
    let config = AnthropicConfig {
        api_key: "test-key".to_string(),
        base_url: None,
        model_id: "acme-sonnet-4-6:1m:fast".to_string(),
        model_info: None,
        thinking_budget_tokens: None,
        family: family(),
    };
    let provider = AnthropicProvider::new(config);
    assert_eq!(provider.sanitize_model_id(), "acme-sonnet-4-6");
}

#[test]
fn test_sanitize_model_id_reverse_order() {
    // :fast:1m ordering was broken by sequential ends_with checks
    let config = AnthropicConfig {
        api_key: "test-key".to_string(),
        base_url: None,
        model_id: "acme-sonnet-4-6:fast:1m".to_string(),
        model_info: None,
        thinking_budget_tokens: None,
        family: family(),
    };
    let provider = AnthropicProvider::new(config);
    assert_eq!(provider.sanitize_model_id(), "acme-sonnet-4-6");
}

#[test]
fn test_build_request_body_fast_1m_ordering() {
    // :fast:1m ordering should set both beta header and speed field
    let config = AnthropicConfig {
        api_key: "test-key".to_string(),
        base_url: None,
        model_id: "acme-sonnet-4-6:fast:1m".to_string(),
        model_info: None,
        thinking_budget_tokens: None,
        family: family(),
    };
    let provider = AnthropicProvider::new(config);
    let request = ProviderRequest {
        system_prompt: "You are a helpful assistant.".to_string(),
        messages: vec![StorageMessage {
            id: None,
            role: MessageRole::User,
            content: MessageContent::Text("Hello".to_string()),
            model_info: None,
            metrics: None,
            ts: None,
        }],
        tools: None,
        tool_choice: None,
        use_response_api: None,
        max_tokens: None,
    };
    let body = v(&provider.build_request_body(&request));
    assert_eq!(
        body["speed"], "fast",
        "speed field should be set for :fast:1m ordering"
    );
    assert_eq!(
        body["model"], "acme-sonnet-4-6",
        "model should be sanitized"
    );
}

#[test]
fn test_build_request_body_1m_fast_ordering() {
    // :1m:fast ordering should also set speed field (regression check)
    let config = AnthropicConfig {
        api_key: "test-key".to_string(),
        base_url: None,
        model_id: "acme-sonnet-4-6:1m:fast".to_string(),
        model_info: None,
        thinking_budget_tokens: None,
        family: family(),
    };
    let provider = AnthropicProvider::new(config);
    let request = ProviderRequest {
        system_prompt: "You are a helpful assistant.".to_string(),
        messages: vec![StorageMessage {
            id: None,
            role: MessageRole::User,
            content: MessageContent::Text("Hello".to_string()),
            model_info: None,
            metrics: None,
            ts: None,
        }],
        tools: None,
        tool_choice: None,
        use_response_api: None,
        max_tokens: None,
    };
    let body = v(&provider.build_request_body(&request));
    assert_eq!(
        body["speed"], "fast",
        "speed field should be set for :1m:fast ordering"
    );
    assert_eq!(
        body["model"], "acme-sonnet-4-6",
        "model should be sanitized"
    );
}

#[test]
fn anthropic_test_build_request_body_basic() {
    let config = AnthropicConfig {
        api_key: "test-key".to_string(),
        base_url: None,
        model_id: "acme-sonnet-4-6".to_string(),
        model_info: None,
        thinking_budget_tokens: None,
        family: family(),
    };
    let provider = AnthropicProvider::new(config);

    let request = ProviderRequest {
        system_prompt: "You are a helpful assistant.".to_string(),
        messages: vec![StorageMessage {
            id: None,
            role: MessageRole::User,
            content: MessageContent::Text("Hello".to_string()),
            model_info: None,
            metrics: None,
            ts: None,
        }],
        tools: None,
        tool_choice: None,
        use_response_api: None,
        max_tokens: None,
    };

    let body = v(&provider.build_request_body(&request));
    assert_eq!(body["model"], "acme-sonnet-4-6");
    assert_eq!(body["stream"], true);
    assert_eq!(body["temperature"], 0);
    assert!(!body["system"].as_array().unwrap().is_empty());
}

#[test]
fn test_build_request_body_with_thinking() {
    let config = AnthropicConfig {
        api_key: "test-key".to_string(),
        base_url: None,
        model_id: "acme-sonnet-4-6".to_string(),
        model_info: Some(ModelInfo {
            name: None,
            max_tokens: Some(64000),
            context_window: Some(200000),
            supports_images: Some(true),
            supports_prompt_cache: true,
            supports_reasoning: Some(true),
            input_price: None,
            output_price: None,
            image_output_price: None,
            thinking_config: None,
            supports_global_endpoint: None,
            cache_writes_price: None,
            cache_reads_price: None,
            description: None,
            tiers: None,
            temperature: None,
            top_p: None,
            top_k: None,
            supports_tools: None,
            api_format: None,
        }),
        thinking_budget_tokens: Some(1024),
        family: family(),
    };
    let provider = AnthropicProvider::new(config);

    let request = ProviderRequest {
        system_prompt: "You are a helpful assistant.".to_string(),
        messages: vec![],
        tools: None,
        tool_choice: None,
        use_response_api: None,
        max_tokens: None,
    };

    let body = v(&provider.build_request_body(&request));
    assert!(body.get("temperature").is_none());
    assert_eq!(body["thinking"]["type"], "enabled");
    assert_eq!(body["thinking"]["budget_tokens"], 1024);
}

#[test]
fn anthropic_test_build_request_body_with_tools() {
    let config = AnthropicConfig {
        api_key: "test-key".to_string(),
        base_url: None,
        model_id: "acme-sonnet-4-6".to_string(),
        model_info: None,
        thinking_budget_tokens: None,
        family: family(),
    };
    let provider = AnthropicProvider::new(config);

    let request = ProviderRequest {
        system_prompt: "You are a helpful assistant.".to_string(),
        messages: vec![],
        tools: Some(vec![ToolDefinition {
            tool_type: "function".to_string(),
            function: FunctionDefinition {
                name: "read_file".to_string(),
                description: "Read a file".to_string(),
                parameters: j(r#"{ "type": "object", "properties": { "path": {"type": "string"} } }"#),
            },
        }]),
        tool_choice: None,
        use_response_api: None,
        max_tokens: None,
    };

    let body = v(&provider.build_request_body(&request));
    let tools = body["tools"].as_array().unwrap();
    assert_eq!(tools.len(), 1);
    assert_eq!(tools[0]["name"], "read_file");
    // Default tool_choice is now "auto" (model decides), not "any" (forced tool use)
    assert_eq!(body["tool_choice"]["type"], "auto");
}

#[test]
fn anthropic_test_build_request_body_with_native_tools_on_but_no_tools() {
    let config = AnthropicConfig {
        api_key: "test-key".to_string(),
        base_url: None,
        model_id: "acme-sonnet-4-6".to_string(),
        model_info: Some(ModelInfo {
            name: Some("acme-sonnet-4-6".to_string()),
            supports_tools: Some(true),
            ..ModelInfo::default()
        }),
        thinking_budget_tokens: None,
        family: family(),
    };
    let provider = AnthropicProvider::new(config);

    let request = ProviderRequest {
        system_prompt: "You are a helpful assistant.".to_string(),
        messages: vec![],
        tools: None,
        tool_choice: None,
        use_response_api: None,
        max_tokens: None,
    };

    // Should not panic even with native_tools_on and tools: None
    let body = v(&provider.build_request_body(&request));
    // tools field should not be present when tools is None
    assert!(body.get("tools").is_none());
}

fn run(lines: &[&str]) -> Vec<ApiStreamChunk> {
    let mut s = AnthropicToolCallState::default();
    let mut out: Vec<ApiStreamChunk> = Vec::new();
    for line in lines {
        process_anthropic_sse_line(line, &mut s, &mut out);
    }
    out
}

#[test]
fn tool_calls_are_announced_and_made_with_joined_arguments() {
    let out = run(&[
        r#"data: {"type":"content_block_start","index":0,"content_block":{"type":"tool_use","id":"t1","name":"read_file","input":{}}}"#,
        r#"data: {"type":"content_block_delta","index":0,"delta":{"type":"input_json_delta","partial_json":"{\"pa"}}"#,
        r#"data: {"type":"content_block_delta","index":0,"delta":{"type":"input_json_delta","partial_json":"th\":1}"}}"#,
        r#"data: {"type":"content_block_stop","index":0}"#,
        r#"data: {"type":"content_block_stop","index":0}"#,
    ]);
    let calls: Vec<(Option<&str>, Option<&str>)> = out
        .iter()
        .map(|c| match c {
            ApiStreamChunk::ToolCalls(t) => (
                t.tool_call.call_id.as_deref(),
                t.tool_call.function.arguments.as_deref(),
            ),
            other => panic!("unexpected chunk: {other:?}"),
        })
        .collect();
    assert_eq!(
        calls,
        vec![(Some("t1"), Some("")), (Some("t1"), Some("{\"path\":1}"))]
    );
}

#[test]
fn text_blocks_start_on_lines_of_their_own() {
    let block = r#"data: {"type":"content_block_start","index":0,"content_block":{"type":"text","text":"a"}}"#;
    let out = run(&[block, block]);
    let text: String = out
        .iter()
        .map(|c| match c {
            ApiStreamChunk::Text(t) => t.text.clone(),
            _ => String::new(),
        })
        .collect();
    assert_eq!(text, "a\na");
}

#[test]
fn thoughts_signatures_usage_and_errors_become_chunks() {
    let out = run(&[
        r#"data: {"type":"message_start","message":{"usage":{"input_tokens":7,"output_tokens":1,"cache_read_input_tokens":3}}}"#,
        r#"data: {"type":"content_block_start","index":0,"content_block":{"type":"thinking","thinking":"hm"}}"#,
        r#"data: {"type":"content_block_delta","index":0,"delta":{"type":"signature_delta","signature":"sig"}}"#,
        r#"data: {"type":"content_block_start","index":1,"content_block":{"type":"redacted_thinking","data":"xyz"}}"#,
        r#"data: {"type":"message_delta","delta":{"stop_reason":"end_turn"},"usage":{"output_tokens":5}}"#,
        r#"data: {"type":"error","error":{"type":"overloaded_error","message":"busy"}}"#,
        "data: [DONE]",
        "event: ping",
    ]);
    assert_eq!(out.len(), 6);
    assert!(matches!(&out[0], ApiStreamChunk::Usage(u) if u.input_tokens == 7 && u.cache_read_tokens == Some(3)));
    assert!(matches!(&out[1], ApiStreamChunk::Reasoning(r) if r.reasoning == "hm"));
    assert!(matches!(&out[2], ApiStreamChunk::Reasoning(r) if r.signature.as_deref() == Some("sig")));
    assert!(matches!(&out[3], ApiStreamChunk::Reasoning(r) if r.redacted_data.as_deref() == Some("xyz") && r.reasoning == "[Redacted thinking block]"));
    assert!(matches!(&out[4], ApiStreamChunk::Usage(u) if u.output_tokens == 5 && u.stop_reason.as_deref() == Some("end_turn")));
    assert_eq!(out[5], ApiStreamChunk::Error("Anthropic API error (overloaded_error): busy".to_string()));
}

#[test]
fn bytes_are_cut_into_lines_and_the_last_line_counts() {
    let mut buffer = SseLineBuffer::default();
    let mut s = AnthropicToolCallState::default();
    let mut out: Vec<ApiStreamChunk> = Vec::new();
    let line = br#"data: {"type":"content_block_delta","index":0,"delta":{"type":"text_delta","text":"hi"}}"#;
    parse_anthropic_sse_to_chunks(&line[..20], &mut buffer, &mut s, &mut out);
    parse_anthropic_sse_to_chunks(&line[20..], &mut buffer, &mut s, &mut out);
    assert!(out.is_empty());
    finish_anthropic_sse_to_chunks(&mut buffer, &mut s, &mut out);
    assert!(matches!(&out[0], ApiStreamChunk::Text(t) if t.text == "hi"));
    assert_eq!(
        anthropic_stream_error("operation timeout"),
        "Anthropic SSE stream error: operation timeout (retryable)"
    );
}

#[test]
fn only_three_blocks_carry_a_cache_mark() {
    let message = |role| StorageMessage {
        id: None,
        role,
        content: MessageContent::UserBlocks(vec![sned::providers::UserContentBlock::Text(
            sned::providers::TextContentBlock {
                text: "x".to_string(),
                shared: sned::providers::SharedContentFields { call_id: None, signature: None },
                reasoning_details: None,
            },
        )]),
        model_info: None,
        metrics: None,
        ts: None,
    };
    let provider = AnthropicProvider::new(AnthropicConfig {
        api_key: "k".to_string(),
        base_url: None,
        model_id: "any".to_string(),
        model_info: None,
        thinking_budget_tokens: None,
        family: family(),
    });
    let request = ProviderRequest {
        system_prompt: "p".to_string(),
        messages: vec![message(MessageRole::User), message(MessageRole::User), message(MessageRole::User)],
        tools: None,
        tool_choice: None,
        use_response_api: None,
        max_tokens: None,
    };
    let text = v(&provider.build_request_body(&request)).to_string();
    assert_eq!(text.matches("cache_control").count(), 3);
}

#[test]
fn model_descriptions_go_by_size() {
    let info = get_anthropic_model_info("some-haiku", &family());
    assert_eq!(info.name, Some("acme-haiku-4-5-20251001".to_string()));
    assert_eq!(info.input_price, Some(1_000_000));
    assert_eq!(get_anthropic_model_info("some-opus", &family()).max_tokens, Some(128_000));
}
