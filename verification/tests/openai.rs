//! OpenAI and compatible endpoints: requests, streams and whole completions.

use sned::json::Json;
use sned::providers::calls::PendingCall;
use sned::providers::openai::{
    convert_user_blocks, format_stream_error_diagnostics, headers_timed_out, hint_body,
    is_event_stream, is_retryable_stream_transport_error, join_assistant_text_parts,
    response_headers_timeout, stream_timeout_from_env, NextStep, OpenAiConfig, OpenAiEndpointKind,
    OpenAiProvider, OpenAiSession, ProviderTransport, StreamEvent, OPENAI_CLIENT_TOTAL_TIMEOUT,
    OPENAI_NON_STREAM_PREOUTPUT_GRACE,
};
use sned::providers::openai_completion::{
    body_looks_like_sse, decode_openai_body, decode_openai_completion, decode_openai_sse_body,
    read_completion,
};
use sned::providers::openai_models::get_openai_model_info;
use sned::providers::openai_stream::{
    finish_openai_sse_to_chunks, normalize_qwen_thinking_tool_name, parse_openai_sse_to_chunks,
    process_openai_sse_line, OpenAiStreamDeltaState,
};
use sned::providers::reasoning::normalize_reasoning_delta;
use sned::providers::{
    ApiStreamChunk, FunctionDefinition, Header, MessageContent, MessageRole, ModelFamily,
    ModelInfo, OpenAiCompatibleModelInfo, ProviderError, ProviderRequest, SharedContentFields,
    SseLineBuffer, StorageMessage, TextContentBlock, ToolDefinition, ToolResultBlock,
    ToolResultContent, UserContentBlock,
};

/// The JSON that a text holds.
fn j(text: &str) -> Json {
    sned::json::from_text(text).unwrap()
}

/// A value of the library as serde reads it.
fn v(j: &Json) -> serde_json::Value {
    serde_json::from_str(&sned::json::to_text(j)).unwrap()
}

fn header(name: &str, value: &str) -> Header {
    Header { name: name.to_string(), value: Some(value.to_string()) }
}

#[test]
fn test_openai_config() {
    let config = OpenAiConfig {
        api_key: "test-key".to_string(),
        base_url: None,
        model_id: "gpt-4".to_string(),
        model_info: None,
        reasoning_effort: None,
        extra_body: None,
        custom_headers: None,
        endpoint_kind: OpenAiEndpointKind::Official,
        stream: true,
        provider_name: None,
    };
    let provider = OpenAiProvider::new(config);
    assert_eq!(provider.base_url(), "https://api.openai.com/v1");
}

#[test]
fn test_openai_custom_base_url() {
    let config = OpenAiConfig {
        api_key: "test-key".to_string(),
        base_url: Some("https://custom.example.com/v1/".to_string()),
        model_id: "gpt-4".to_string(),
        model_info: None,
        reasoning_effort: None,
        extra_body: None,
        custom_headers: None,
        endpoint_kind: OpenAiEndpointKind::Compatible,
        stream: true,
        provider_name: None,
    };
    let provider = OpenAiProvider::new(config);
    assert_eq!(provider.base_url(), "https://custom.example.com/v1");
}

#[test]
fn test_non_stream_preoutput_policy_allows_full_http_generation() {
    let provider = OpenAiProvider::new(OpenAiConfig {
        api_key: "test-key".to_string(),
        base_url: Some("https://custom.example.com/v1".to_string()),
        model_id: "custom-model".to_string(),
        model_info: None,
        reasoning_effort: None,
        extra_body: None,
        custom_headers: None,
        endpoint_kind: OpenAiEndpointKind::Compatible,
        stream: false,
        provider_name: None,
    });

    let policy = provider.preoutput_policy();
    assert_eq!(
        policy.budget,
        OPENAI_CLIENT_TOTAL_TIMEOUT + OPENAI_NON_STREAM_PREOUTPUT_GRACE
    );
    assert_eq!(policy.transport, ProviderTransport::Buffered);
}

#[test]
fn test_openai_base_url_normalization() {
    let config = OpenAiConfig {
        api_key: "test-key".to_string(),
        base_url: Some("https://custom.example.com/v1/chat/completions".to_string()),
        model_id: "gpt-4".to_string(),
        model_info: None,
        reasoning_effort: None,
        extra_body: None,
        custom_headers: None,
        endpoint_kind: OpenAiEndpointKind::Compatible,
        stream: true,
        provider_name: None,
    };
    let provider = OpenAiProvider::new(config);
    assert_eq!(provider.base_url(), "https://custom.example.com/v1");
}

#[test]
fn openai_test_build_request_body_basic() {
    let config = OpenAiConfig {
        api_key: "test-key".to_string(),
        base_url: None,
        model_id: "gpt-4".to_string(),
        model_info: None,
        reasoning_effort: None,
        extra_body: None,
        custom_headers: None,
        endpoint_kind: OpenAiEndpointKind::Official,
        stream: true,
        provider_name: None,
    };
    let provider = OpenAiProvider::new(config);

    let request = ProviderRequest {
        system_prompt: "You are a helpful assistant.".to_string(),
        messages: vec![StorageMessage {
            id: None,
            role: MessageRole::User,
            content: MessageContent::Text("Hello".to_string()),
            model_info: None,
            metrics: None,
            ts: None,
        }],
        tools: None,
        tool_choice: None,
        use_response_api: None,
        max_tokens: None,
    };

    let body = v(&provider.build_request_body(&request));
    assert_eq!(body["model"], "gpt-4");
    assert_eq!(body["stream"], true);
    assert!(body["messages"].as_array().unwrap().len() >= 2);
    assert!(body.get("chat_template_kwargs").is_none());

    let empty_history = ProviderRequest {
        messages: Vec::new(),
        ..request
    };
    let fallback_body = v(&provider.build_request_body(&empty_history));
    assert!(
        fallback_body["messages"]
            .as_array()
            .unwrap()
            .iter()
            .any(|msg| { msg["role"] == "user" && msg["content"] == "Please proceed." })
    );
}

#[test]
fn test_build_request_body_non_stream_omits_stream_options() {
    let provider = OpenAiProvider::new(OpenAiConfig {
        api_key: "test-key".to_string(),
        base_url: Some("https://custom.example.com/v1".to_string()),
        model_id: "custom-model".to_string(),
        model_info: None,
        reasoning_effort: None,
        extra_body: Some(vec![
            ("stream".to_string(), j(r#"true"#)),
            (
                "stream_options".to_string(),
                j(r#"{"include_usage": true}"#),
            ),
        ]),
        custom_headers: None,
        endpoint_kind: OpenAiEndpointKind::Compatible,
        stream: false,
        provider_name: None,
    });
    let request = ProviderRequest {
        system_prompt: "Be concise.".to_string(),
        messages: vec![],
        tools: None,
        tool_choice: None,
        use_response_api: None,
        max_tokens: None,
    };

    let body = v(&provider.build_request_body(&request));
    assert_eq!(body["stream"], false);
    assert!(body.get("stream_options").is_none());
}

#[test]
fn test_decode_non_stream_completion_preserves_chunks_and_usage() {
    let completion = read_completion(&j(r#"{
        "id": "chatcmpl-nonstream",
        "choices": [{
            "message": {
                "reasoning_content": "thinking",
                "content": "answer",
                "tool_calls": [{
                    "id": "call-1",
                    "type": "function",
                    "function": {
                        "name": "read_file",
                        "arguments": "{\"path\":\"README.md\"}"
                    }
                }]
            },
            "finish_reason": "tool_calls"
        }],
        "usage": {
            "prompt_tokens": 100,
            "completion_tokens": 20,
            "prompt_tokens_details": {"cached_tokens": 40},
            "completion_tokens_details": {"reasoning_tokens": 5},
            "prompt_cache_miss_tokens": 10
        }
    }"#))
    .unwrap();

    let chunks = decode_openai_completion(&completion, &None);
    assert!(matches!(chunks[0], ApiStreamChunk::Reasoning(_)));
    assert!(matches!(chunks[1], ApiStreamChunk::Text(_)));
    assert!(matches!(
        chunks[2],
        ApiStreamChunk::ToolCallStarted { ref call_id, ref name }
            if call_id == "call-1" && name == "read_file"
    ));
    assert!(matches!(chunks[3], ApiStreamChunk::ToolCalls(_)));
    assert!(matches!(
        chunks[4],
        ApiStreamChunk::Usage(ref usage)
            if usage.input_tokens == 60
                && usage.cache_read_tokens == Some(40)
                && usage.cache_write_tokens == Some(10)
                && usage.reasoning_tokens == Some(5)
                && usage.stop_reason.as_deref() == Some("tool_calls")
    ));
}

#[test]
fn test_decode_non_stream_completion_tolerates_missing_optional_fields() {
    let completion = read_completion(&j(r#"{ "choices": [{ "message": { "tool_calls": [ {}, {"id": "call-valid", "function": {"name": "read_file"}} ] }, "finish_reason": "tool_calls" }] }"#))
    .unwrap();

    let chunks = decode_openai_completion(&completion, &None);
    assert_eq!(
        chunks
            .iter()
            .filter(|chunk| matches!(chunk, ApiStreamChunk::ToolCallStarted { .. }))
            .count(),
        1
    );
    assert!(chunks.iter().any(|chunk| matches!(
        chunk,
        ApiStreamChunk::ToolCalls(tool_calls)
            if tool_calls.tool_call.call_id.as_deref() == Some("call-valid")
    )));
    assert!(matches!(chunks.last(), Some(ApiStreamChunk::Usage(usage))
        if usage.stop_reason.as_deref() == Some("tool_calls")));
}

#[test]
fn test_decode_non_stream_completion_tolerates_missing_message_and_id() {
    let completion = read_completion(&j(r#"{ "choices": [{}] }"#))
    .unwrap();

    let chunks = decode_openai_completion(&completion, &None);
    assert!(matches!(chunks.as_slice(), [ApiStreamChunk::Usage(usage)]
        if usage.input_tokens == 0 && usage.output_tokens == 0));
}

#[test]
fn test_build_request_body_merges_extra_body_without_overriding_core_fields() {
    let provider = OpenAiProvider::new(OpenAiConfig {
        api_key: "test-key".to_string(),
        base_url: Some("https://custom.example.com/v1".to_string()),
        model_id: "qwen3-coder".to_string(),
        model_info: None,
        reasoning_effort: None,
        extra_body: Some(vec![
            (
                "chat_template_kwargs".to_string(),
                j(r#"{"enable_thinking": true, "preserve_thinking": true}"#),
            ),
            ("top_k".to_string(), j(r#"20"#)),
            ("model".to_string(), j(r#""different-model""#)),
        ]),
        custom_headers: None,
        endpoint_kind: OpenAiEndpointKind::Compatible,
        stream: true,
        provider_name: None,
    });
    let request = ProviderRequest {
        system_prompt: "You are helpful.".to_string(),
        messages: vec![],
        tools: None,
        tool_choice: None,
        use_response_api: None,
        max_tokens: None,
    };

    let body = v(&provider.build_request_body(&request));

    assert_eq!(body["chat_template_kwargs"]["enable_thinking"], true);
    assert_eq!(body["chat_template_kwargs"]["preserve_thinking"], true);
    assert_eq!(body["top_k"], 20);
    assert_eq!(body["model"], "qwen3-coder");
    assert_eq!(body["stream"], true);
    assert!(body["messages"].is_array());
}

#[test]
fn openai_test_build_request_body_with_tools() {
    let config = OpenAiConfig {
        api_key: "test-key".to_string(),
        base_url: None,
        model_id: "gpt-4".to_string(),
        model_info: None,
        reasoning_effort: None,
        extra_body: None,
        custom_headers: None,
        endpoint_kind: OpenAiEndpointKind::Official,
        stream: true,
        provider_name: None,
    };
    let provider = OpenAiProvider::new(config);

    let request = ProviderRequest {
        system_prompt: "You are a helpful assistant.".to_string(),
        messages: vec![],
        tools: Some(vec![ToolDefinition {
            tool_type: "function".to_string(),
            function: FunctionDefinition {
                name: "read_file".to_string(),
                description: "Read a file".to_string(),
                parameters: j(r#"{ "type": "object", "properties": { "path": {"type": "string"} } }"#),
            },
        }]),
        tool_choice: None,
        use_response_api: None,
        max_tokens: None,
    };

    let body = v(&provider.build_request_body(&request));
    let tools = body["tools"].as_array().unwrap();
    assert_eq!(tools.len(), 1);
    assert_eq!(tools[0]["function"]["name"], "read_file");
}

#[test]
fn openai_test_build_request_body_with_native_tools_on_but_no_tools() {
    let config = OpenAiConfig {
        api_key: "test-key".to_string(),
        base_url: None,
        model_id: "gpt-4".to_string(),
        model_info: Some(OpenAiCompatibleModelInfo {
            base: ModelInfo {
                name: Some("gpt-4".to_string()),
                supports_tools: Some(true),
                ..ModelInfo::default()
            },
            is_r1_format_required: None,
            system_role: None,
            supports_reasoning_effort: None,
            supports_streaming: None,
        }),
        reasoning_effort: None,
        extra_body: None,
        custom_headers: None,
        endpoint_kind: OpenAiEndpointKind::Official,
        stream: true,
        provider_name: None,
    };
    let provider = OpenAiProvider::new(config);

    let request = ProviderRequest {
        system_prompt: "You are a helpful assistant.".to_string(),
        messages: vec![],
        tools: None,
        tool_choice: None,
        use_response_api: None,
        max_tokens: None,
    };

    let body = v(&provider.build_request_body(&request));
    assert!(body.get("tools").is_none());
}

#[test]
fn test_convert_user_blocks_with_tool_result() {
    let blocks = vec![
        UserContentBlock::Text(TextContentBlock {
            text: "before tool".to_string(),
            shared: SharedContentFields {
                call_id: None,
                signature: None,
            },
            reasoning_details: None,
        }),
        UserContentBlock::ToolResult(ToolResultBlock {
            tool_use_id: "call_abc".to_string(),
            content: ToolResultContent::Text("tool output".to_string()),
            shared: SharedContentFields {
                call_id: None,
                signature: None,
            },
        }),
    ];

    let converted = convert_user_blocks("user", &blocks);
    let converted: Vec<serde_json::Value> = converted.iter().map(v).collect();
    assert_eq!(converted.len(), 2);
    assert_eq!(converted[0]["role"], "tool");
    assert_eq!(converted[0]["tool_call_id"], "call_abc");
    assert_eq!(converted[0]["content"], "tool output");
    assert_eq!(converted[1]["role"], "user");
    assert_eq!(converted[1]["content"][0]["text"], "before tool");
}

#[test]
fn test_process_openai_sse_line_emits_stop_reason_without_usage() {
    let mut s = OpenAiStreamDeltaState::default();
    let mut out: Vec<ApiStreamChunk> = Vec::new();

    process_openai_sse_line(
        r#"data: {"id":"chatcmpl_123","choices":[{"delta":{},"finish_reason":"stop"}]}"#,
        &mut s,
        &None,
        usize::MAX,
        &mut out,
    );

    assert!(out.is_empty());
}

#[test]
fn test_finish_openai_sse_to_chunks_skips_content_filter_tool_calls() {
    let mut buffer = SseLineBuffer::default();
    let mut s = OpenAiStreamDeltaState::default();
    let mut out: Vec<ApiStreamChunk> = Vec::new();
    s.calls.put(PendingCall {
        index: 0,
        id: "call_1".to_string(),
        name: "read_file".to_string(),
        arguments: "{\"path\":\"a.rs\"}".to_string(),
        started: false,
        completed: false,
    });
    s.last_stop_reason = Some("content_filter".to_string());

    finish_openai_sse_to_chunks(&mut buffer, &mut s, &None, usize::MAX, &mut out);

    let saw_tool_calls = out.iter().any(|c| matches!(c, ApiStreamChunk::ToolCalls(_)));
    assert!(!saw_tool_calls);
}

#[test]
fn test_reasoning_model_uses_max_completion_tokens() {
    let config = OpenAiConfig {
        api_key: "test-key".to_string(),
        base_url: None,
        model_id: "o3-mini".to_string(),
        model_info: Some(OpenAiCompatibleModelInfo {
            base: ModelInfo {
                name: Some("o3-mini".to_string()),
                max_tokens: Some(100_000),
                context_window: Some(200_000),
                supports_images: Some(true),
                supports_prompt_cache: true,
                supports_reasoning: Some(true),
                input_price: Some(1100000),
                output_price: Some(4400000),
                image_output_price: None,
                thinking_config: None,
                supports_global_endpoint: None,
                cache_writes_price: None,
                cache_reads_price: None,
                description: None,
                tiers: None,
                temperature: None,
                top_p: None,
                top_k: None,
                supports_tools: Some(true),
                api_format: None,
            },
            is_r1_format_required: None,
            system_role: None,
            supports_reasoning_effort: None,
            supports_streaming: None,
        }),
        reasoning_effort: None,
        extra_body: None,
        custom_headers: None,
        endpoint_kind: OpenAiEndpointKind::Official,
        stream: true,
        provider_name: None,
    };
    let provider = OpenAiProvider::new(config);

    let request = ProviderRequest {
        system_prompt: "You are a helpful assistant.".to_string(),
        messages: vec![],
        tools: None,
        tool_choice: None,
        use_response_api: None,
        max_tokens: None,
    };

    let body = v(&provider.build_request_body(&request));
    assert_eq!(
        body["max_completion_tokens"], 100_000,
        "reasoning model should use max_completion_tokens"
    );
    assert!(
        body.get("max_tokens").is_none(),
        "reasoning model should NOT have max_tokens"
    );
    assert_eq!(body["messages"][0]["role"], "developer");
}

#[test]
fn test_compatible_endpoint_uses_standard_shape_for_openai_model_id() {
    let config = OpenAiConfig {
        api_key: "test-key".to_string(),
        base_url: Some("https://gateway.example.com/v1".to_string()),
        model_id: "gpt-5.4".to_string(),
        model_info: Some(get_openai_model_info("gpt-5.4")),
        reasoning_effort: None,
        extra_body: None,
        custom_headers: None,
        endpoint_kind: OpenAiEndpointKind::Compatible,
        stream: true,
        provider_name: Some("openai-compatible".to_string()),
    };
    let provider = OpenAiProvider::new(config);
    let request = ProviderRequest {
        system_prompt: "You are a helpful assistant.".to_string(),
        messages: vec![],
        tools: None,
        tool_choice: None,
        use_response_api: None,
        max_tokens: None,
    };

    let body = v(&provider.build_request_body(&request));

    assert_eq!(body["messages"][0]["role"], "system");
    assert_eq!(body["max_tokens"], 128_000);
    assert!(body.get("max_completion_tokens").is_none());
}

#[test]
fn test_compatible_endpoint_qwen_reasoning_uses_max_tokens() {
    let model_id = "qwen/qwen3.5-27b";
    let model_info = get_openai_model_info(model_id);
    assert_eq!(model_info.base.supports_reasoning, Some(true));

    let config = OpenAiConfig {
        api_key: "test-key".to_string(),
        base_url: Some("https://gateway.example.com/v1".to_string()),
        model_id: model_id.to_string(),
        model_info: Some(model_info),
        reasoning_effort: None,
        extra_body: None,
        custom_headers: None,
        endpoint_kind: OpenAiEndpointKind::Compatible,
        stream: true,
        provider_name: Some("openai-compatible".to_string()),
    };
    let provider = OpenAiProvider::new(config);
    let request = ProviderRequest {
        system_prompt: "You are a helpful assistant.".to_string(),
        messages: vec![],
        tools: None,
        tool_choice: None,
        use_response_api: None,
        max_tokens: None,
    };

    let body = v(&provider.build_request_body(&request));

    assert_eq!(body["messages"][0]["role"], "system");
    assert_eq!(body["max_tokens"], 65_536);
    assert!(body.get("max_completion_tokens").is_none());
}

#[test]
fn test_non_reasoning_model_uses_max_tokens() {
    let config = OpenAiConfig {
        api_key: "test-key".to_string(),
        base_url: None,
        model_id: "gpt-4o".to_string(),
        model_info: Some(OpenAiCompatibleModelInfo {
            base: ModelInfo {
                name: Some("gpt-4o".to_string()),
                max_tokens: Some(16_384),
                context_window: Some(128_000),
                supports_images: Some(true),
                supports_prompt_cache: false,
                supports_reasoning: Some(false),
                input_price: Some(2500000),
                output_price: Some(10000000),
                image_output_price: None,
                thinking_config: None,
                supports_global_endpoint: None,
                cache_writes_price: None,
                cache_reads_price: None,
                description: None,
                tiers: None,
                temperature: None,
                top_p: None,
                top_k: None,
                supports_tools: Some(true),
                api_format: None,
            },
            is_r1_format_required: None,
            system_role: None,
            supports_reasoning_effort: None,
            supports_streaming: None,
        }),
        reasoning_effort: None,
        extra_body: None,
        custom_headers: None,
        endpoint_kind: OpenAiEndpointKind::Official,
        stream: true,
        provider_name: None,
    };
    let provider = OpenAiProvider::new(config);

    let request = ProviderRequest {
        system_prompt: "You are a helpful assistant.".to_string(),
        messages: vec![],
        tools: None,
        tool_choice: None,
        use_response_api: None,
        max_tokens: None,
    };

    let body = v(&provider.build_request_body(&request));
    assert_eq!(
        body["max_tokens"], 16_384,
        "non-reasoning model should use max_tokens"
    );
    assert!(
        body.get("max_completion_tokens").is_none(),
        "non-reasoning model should NOT have max_completion_tokens"
    );
}

#[test]
fn test_no_max_tokens_when_zero() {
    let config = OpenAiConfig {
        api_key: "test-key".to_string(),
        base_url: None,
        model_id: "gpt-4o".to_string(),
        model_info: Some(OpenAiCompatibleModelInfo {
            base: ModelInfo {
                name: Some("gpt-4o".to_string()),
                max_tokens: Some(0),
                context_window: Some(128_000),
                supports_images: Some(true),
                supports_prompt_cache: false,
                supports_reasoning: Some(false),
                input_price: Some(2500000),
                output_price: Some(10000000),
                image_output_price: None,
                thinking_config: None,
                supports_global_endpoint: None,
                cache_writes_price: None,
                cache_reads_price: None,
                description: None,
                tiers: None,
                temperature: None,
                top_p: None,
                top_k: None,
                supports_tools: Some(true),
                api_format: None,
            },
            is_r1_format_required: None,
            system_role: None,
            supports_reasoning_effort: None,
            supports_streaming: None,
        }),
        reasoning_effort: None,
        extra_body: None,
        custom_headers: None,
        endpoint_kind: OpenAiEndpointKind::Official,
        stream: true,
        provider_name: None,
    };
    let provider = OpenAiProvider::new(config);

    let request = ProviderRequest {
        system_prompt: "You are a helpful assistant.".to_string(),
        messages: vec![],
        tools: None,
        tool_choice: None,
        use_response_api: None,
        max_tokens: None,
    };

    let body = v(&provider.build_request_body(&request));
    assert!(
        body.get("max_tokens").is_none(),
        "max_tokens=0 should not be sent"
    );
    assert!(
        body.get("max_completion_tokens").is_none(),
        "max_completion_tokens should not be sent when max_tokens=0"
    );
}

#[test]
fn test_default_temperature_omitted() {
    let config = OpenAiConfig {
        api_key: "test-key".to_string(),
        base_url: None,
        model_id: "gpt-4o".to_string(),
        model_info: None,
        reasoning_effort: None,
        extra_body: None,
        custom_headers: None,
        endpoint_kind: OpenAiEndpointKind::Official,
        stream: true,
        provider_name: None,
    };
    let provider = OpenAiProvider::new(config);

    let request = ProviderRequest {
        system_prompt: "You are a helpful assistant.".to_string(),
        messages: vec![],
        tools: None,
        tool_choice: None,
        use_response_api: None,
        max_tokens: None,
    };

    let body = v(&provider.build_request_body(&request));
    assert!(
        body.get("temperature").is_none(),
        "temperature should be omitted by default"
    );
}

#[test]
fn test_nonzero_temperature_sent() {
    let config = OpenAiConfig {
        api_key: "test-key".to_string(),
        base_url: None,
        model_id: "deepseek-chat".to_string(),
        model_info: Some(sned::providers::deepseek::get_deepseek_model_info(
            "deepseek-chat",
        )),
        reasoning_effort: None,
        extra_body: None,
        custom_headers: None,
        endpoint_kind: OpenAiEndpointKind::Compatible,
        stream: true,
        provider_name: None,
    };
    let provider = OpenAiProvider::new(config);

    let request = ProviderRequest {
        system_prompt: "You are a helpful assistant.".to_string(),
        messages: vec![],
        tools: None,
        tool_choice: None,
        use_response_api: None,
        max_tokens: None,
    };

    let body = v(&provider.build_request_body(&request));
    assert_eq!(
        body["temperature"], 0.7,
        "profile temperature should be sent"
    );
}

#[test]
fn test_zero_temperature_omitted() {
    let config = OpenAiConfig {
        api_key: "test-key".to_string(),
        base_url: None,
        model_id: "gpt-4o".to_string(),
        model_info: Some(OpenAiCompatibleModelInfo {
            base: ModelInfo {
                name: Some("gpt-4o".to_string()),
                max_tokens: None,
                context_window: Some(128_000),
                supports_images: Some(true),
                supports_prompt_cache: false,
                supports_reasoning: Some(false),
                input_price: Some(2500000),
                output_price: Some(10000000),
                image_output_price: None,
                thinking_config: None,
                supports_global_endpoint: None,
                cache_writes_price: None,
                cache_reads_price: None,
                description: None,
                tiers: None,
                temperature: Some(0),
                top_p: None,
                top_k: None,
                supports_tools: Some(true),
                api_format: None,
            },
            is_r1_format_required: None,
            system_role: None,
            supports_reasoning_effort: None,
            supports_streaming: None,
        }),
        reasoning_effort: None,
        extra_body: None,
        custom_headers: None,
        endpoint_kind: OpenAiEndpointKind::Official,
        stream: true,
        provider_name: None,
    };
    let provider = OpenAiProvider::new(config);

    let request = ProviderRequest {
        system_prompt: "You are a helpful assistant.".to_string(),
        messages: vec![],
        tools: None,
        tool_choice: None,
        use_response_api: None,
        max_tokens: None,
    };

    let body = v(&provider.build_request_body(&request));
    assert!(
        body.get("temperature").is_none(),
        "temperature=0.0 should be omitted"
    );
}

#[test]
fn test_reasoning_model_temperature_always_omitted() {
    let config = OpenAiConfig {
        api_key: "test-key".to_string(),
        base_url: None,
        model_id: "o3-mini".to_string(),
        model_info: Some(OpenAiCompatibleModelInfo {
            base: ModelInfo {
                name: Some("o3-mini".to_string()),
                max_tokens: None,
                context_window: Some(200_000),
                supports_images: Some(true),
                supports_prompt_cache: true,
                supports_reasoning: Some(true),
                input_price: Some(1100000),
                output_price: Some(4400000),
                image_output_price: None,
                thinking_config: None,
                supports_global_endpoint: None,
                cache_writes_price: None,
                cache_reads_price: None,
                description: None,
                tiers: None,
                temperature: Some(500000),
                top_p: None,
                top_k: None,
                supports_tools: Some(true),
                api_format: None,
            },
            is_r1_format_required: None,
            system_role: None,
            supports_reasoning_effort: None,
            supports_streaming: None,
        }),
        reasoning_effort: None,
        extra_body: None,
        custom_headers: None,
        endpoint_kind: OpenAiEndpointKind::Official,
        stream: true,
        provider_name: None,
    };
    let provider = OpenAiProvider::new(config);

    let request = ProviderRequest {
        system_prompt: "You are a helpful assistant.".to_string(),
        messages: vec![],
        tools: None,
        tool_choice: None,
        use_response_api: None,
        max_tokens: None,
    };

    let body = v(&provider.build_request_body(&request));
    assert!(
        body.get("temperature").is_none(),
        "reasoning model should never have temperature, even if model_info.temperature is set"
    );
}

#[test]
fn test_get_openai_model_info_gpt4o() {
    let info = get_openai_model_info("gpt-4o");
    assert_eq!(info.base.context_window, Some(128_000));
    assert_eq!(info.base.max_tokens, Some(16_384));
    assert_eq!(info.base.input_price, Some(2500000));
    assert_eq!(info.base.output_price, Some(10000000));
    assert_eq!(info.base.temperature, None);
}

#[test]
fn test_get_openai_model_info_o3_mini() {
    let info = get_openai_model_info("o3-mini");
    assert_eq!(info.base.context_window, Some(200_000));
    assert_eq!(info.base.max_tokens, Some(100_000));
    assert_eq!(info.base.supports_reasoning, Some(true));
    assert!(info.base.supports_prompt_cache);
}

#[test]
fn test_get_openai_model_info_current_models() {
    let cases: [(&str, u64, f64, f64, f64, f64); 7] = [
        ("gpt-5.6", 1_050_000, 5.0, 30.0, 0.5, 6.25),
        ("gpt-5.6-sol", 1_050_000, 5.0, 30.0, 0.5, 6.25),
        ("gpt-5.6-terra", 1_050_000, 2.5, 15.0, 0.25, 3.125),
        ("gpt-5.6-luna", 1_050_000, 1.0, 6.0, 0.1, 1.25),
        ("gpt-5.3-codex", 400_000, 1.75, 14.0, 0.175, 2.1875),
        ("gpt-5.4", 1_050_000, 2.5, 15.0, 0.25, 3.125),
        ("gpt-5.4-mini", 400_000, 0.75, 4.5, 0.075, 0.9375),
    ];

    for (model_id, context_window, input, output, cache_read, cache_write) in cases {
        let info = get_openai_model_info(model_id);
        assert_eq!(info.base.context_window, Some(context_window));
        assert_eq!(info.base.max_tokens, Some(128_000));
        assert_eq!(info.base.input_price, Some((input * 1_000_000.0) as u64));
        assert_eq!(info.base.output_price, Some((output * 1_000_000.0) as u64));
        assert_eq!(info.base.cache_reads_price, Some((cache_read * 1_000_000.0) as u64));
        assert_eq!(info.base.cache_writes_price, Some((cache_write * 1_000_000.0) as u64));
        assert_eq!(info.base.supports_images, Some(true));
        assert_eq!(info.base.supports_tools, Some(true));
        assert_eq!(info.base.supports_reasoning, Some(true));
        assert!(info.base.supports_prompt_cache);
        assert_eq!(info.supports_reasoning_effort, Some(true));
        assert_eq!(info.supports_streaming, Some(true));
    }
}

#[test]
fn test_get_openai_model_info_qwen_family() {
    for model_id in ["qwen3.6-35b-a3b", "qwen/qwen3.5-27b"] {
        let info = get_openai_model_info(model_id);
        assert_eq!(info.base.context_window, Some(262_144));
        assert_eq!(info.base.max_tokens, Some(65_536));
        assert_eq!(info.base.supports_tools, Some(true));
        assert_eq!(info.base.supports_images, Some(false));
        assert!(!info.base.supports_prompt_cache);
        assert_eq!(info.base.supports_reasoning, Some(true));
        assert_eq!(info.supports_reasoning_effort, Some(false));
    }
}

#[test]
fn test_get_openai_model_info_unknown_fallback() {
    let info = get_openai_model_info("unknown-model-x");
    assert_eq!(info.base.context_window, Some(128_000));
    assert_eq!(info.base.max_tokens, None);
    assert_eq!(info.base.input_price, Some(0));
    assert_eq!(info.base.output_price, Some(0));
    assert_eq!(info.base.temperature, None);
}

#[test]
fn test_get_model_uses_lookup() {
    let config = OpenAiConfig {
        api_key: "test-key".to_string(),
        base_url: None,
        model_id: "gpt-4o".to_string(),
        model_info: None,
        reasoning_effort: None,
        extra_body: None,
        custom_headers: None,
        endpoint_kind: OpenAiEndpointKind::Official,
        stream: true,
        provider_name: None,
    };
    let provider = OpenAiProvider::new(config);
    let model = provider.get_model();

    assert_eq!(model.info.context_window, Some(128_000));
    assert_eq!(model.info.max_tokens, Some(16_384));
    assert_eq!(model.info.temperature, None);
}

#[test]
fn test_get_model_prefers_explicit_model_info() {
    let custom_info = OpenAiCompatibleModelInfo {
        base: ModelInfo {
            name: Some("custom".to_string()),
            max_tokens: Some(99_999),
            context_window: Some(999_999),
            supports_images: Some(false),
            supports_prompt_cache: false,
            supports_reasoning: Some(false),
            input_price: Some(10000),
            output_price: Some(20000),
            image_output_price: None,
            thinking_config: None,
            supports_global_endpoint: None,
            cache_writes_price: None,
            cache_reads_price: None,
            description: None,
            tiers: None,
            temperature: Some(700000),
            top_p: None,
            top_k: None,
            supports_tools: Some(false),
            api_format: None,
        },
        is_r1_format_required: None,
        system_role: None,
        supports_reasoning_effort: None,
        supports_streaming: None,
    };

    let config = OpenAiConfig {
        api_key: "test-key".to_string(),
        base_url: None,
        model_id: "gpt-4o".to_string(),
        model_info: Some(custom_info.clone()),
        reasoning_effort: None,
        extra_body: None,
        custom_headers: None,
        endpoint_kind: OpenAiEndpointKind::Official,
        stream: true,
        provider_name: None,
    };
    let provider = OpenAiProvider::new(config);
    let model = provider.get_model();

    assert_eq!(model.info.context_window, Some(999_999));
    assert_eq!(model.info.max_tokens, Some(99_999));
    assert_eq!(model.info.temperature, Some(700000));
}

#[test]
fn test_openai_provider_error_preserves_body() {
    // Verify that provider-specific error fields in the response body are preserved
    // This test documents that ProviderHttpError stores the raw body, not parsed fields
    // Provider-specific fields (error.code, error.type, etc.) are preserved in the body string
    // No parsing is done that would drop fields - the raw JSON response is kept intact
    let config = OpenAiConfig {
        api_key: "test-key".to_string(),
        base_url: None,
        model_id: "gpt-4o".to_string(),
        model_info: None,
        reasoning_effort: None,
        extra_body: None,
        custom_headers: None,
        endpoint_kind: OpenAiEndpointKind::Official,
        stream: true,
        provider_name: Some("openai".to_string()),
    };
    let _provider = OpenAiProvider::new(config);
    // Test passes if provider constructs successfully with provider_name set
    // Error body preservation is verified by ProviderHttpError storing raw body string
}

#[test]
fn test_format_stream_error_diagnostics_includes_elapsed_and_relevant_headers() {
    let headers = vec![
        header("content-encoding", "gzip"),
        header("content-type", "text/event-stream"),
        header("cf-ray", "abc123"),
    ];

    let diagnostics = format_stream_error_diagnostics(&headers, 1532, Some(12));

    assert!(diagnostics.contains("elapsed=1532ms"));
    assert!(diagnostics.contains("first_byte=12ms"));
    assert!(diagnostics.contains("content-encoding=gzip"));
    assert!(diagnostics.contains("content-type=text/event-stream"));
    assert!(diagnostics.contains("cf-ray=abc123"));
}

#[test]
fn test_format_stream_error_diagnostics_marks_pending_first_byte() {
    let diagnostics =
        format_stream_error_diagnostics(&vec![], 1532, None);

    assert!(diagnostics.contains("elapsed=1532ms"));
    assert!(diagnostics.contains("first_byte=pending"));
}

#[test]
fn test_retryable_stream_transport_error_detects_decode_failures() {
    assert!(is_retryable_stream_transport_error(
        "error decoding response body"
    ));
    assert!(is_retryable_stream_transport_error("Decoding timeout"));
    assert!(!is_retryable_stream_transport_error(
        "invalid request payload"
    ));
}

#[test]
fn test_normalize_reasoning_delta_strips_overlapping_prefixes() {
    let mut state = OpenAiStreamDeltaState::default();

    assert_eq!(
        normalize_reasoning_delta(&mut state.emitted_reasoning, "The".to_string()).as_deref(),
        Some("The")
    );
    assert_eq!(
        normalize_reasoning_delta(&mut state.emitted_reasoning, "The user".to_string())
            .as_deref(),
        Some(" user")
    );
    assert_eq!(
        normalize_reasoning_delta(&mut state.emitted_reasoning, " user wants".to_string())
            .as_deref(),
        Some(" wants")
    );
    assert_eq!(
        normalize_reasoning_delta(&mut state.emitted_reasoning, " wants me".to_string())
            .as_deref(),
        Some(" me")
    );
    assert_eq!(state.emitted_reasoning, "The user wants me");
}

#[test]
fn test_process_openai_sse_line_normalizes_overlapping_reasoning_chunks() {
    let mut s = OpenAiStreamDeltaState::default();
    let mut out: Vec<ApiStreamChunk> = Vec::new();

    for line in [
        r#"data: {"id":"chatcmpl_123","choices":[{"delta":{"reasoning_content":"The"},"finish_reason":null}]}"#,
        r#"data: {"id":"chatcmpl_123","choices":[{"delta":{"reasoning_content":"The user"},"finish_reason":null}]}"#,
        r#"data: {"id":"chatcmpl_123","choices":[{"delta":{"reasoning_content":" user wants"},"finish_reason":null}]}"#,
    ] {
        process_openai_sse_line(line, &mut s, &None, usize::MAX, &mut out);
    }

    let mut reasoning = String::new();
    for chunk in &out {
        if let ApiStreamChunk::Reasoning(reasoning_chunk) = chunk {
            reasoning.push_str(&reasoning_chunk.reasoning);
        }
    }

    assert_eq!(reasoning, "The user wants");
}

#[test]
fn test_qwen_thinking_wrapper_normalizes_tool_name_and_announces_start() {
    let mut s = OpenAiStreamDeltaState::default();
    let mut out: Vec<ApiStreamChunk> = Vec::new();
    let line = r#"data: {"id":"chatcmpl_123","choices":[{"delta":{"tool_calls":[{"index":0,"id":"call_write","function":{"name":"write_to_file\n</think>\n\n<tool_call>\n<function=write_to_file","arguments":"{\"path\":\"tetris.c\",\"content\":\"x\"}"}}]},"finish_reason":null}]}"#;

    process_openai_sse_line(line, &mut s, &None, usize::MAX, &mut out);
    finish_openai_sse_to_chunks(&mut SseLineBuffer::default(), &mut s, &None, usize::MAX, &mut out);

    assert!(matches!(
        out.first(),
        Some(ApiStreamChunk::ToolCallStarted { call_id, name })
            if call_id == "call_write" && name == "write_to_file"
    ));
    assert!(out.iter().any(|chunk| matches!(
        chunk,
        ApiStreamChunk::ToolCalls(tool_chunk)
            if tool_chunk.tool_call.function.name.as_deref() == Some("write_to_file")
    )));
}

#[test]
fn test_fragmented_tool_call_preserves_initial_id() {
    let mut s = OpenAiStreamDeltaState::default();
    let mut out: Vec<ApiStreamChunk> = Vec::new();

    let lines = [
        j(r#"{ "id": "chatcmpl_123", "choices": [{ "delta": { "tool_calls": [{ "index": 0, "id": "call_qwen", "function": { "name": "execute_command", "arguments": "" } }] }, "finish_reason": null }] }"#),
        j(r#"{ "id": "chatcmpl_123", "choices": [{ "delta": { "tool_calls": [{ "index": 0, "id": "", "function": {"arguments": "{\"commands\": "} }] }, "finish_reason": null }] }"#),
        j(r#"{ "id": "chatcmpl_123", "choices": [{ "delta": { "tool_calls": [{ "index": 0, "id": "", "function": {"arguments": "[\"pwd\"]}"} }] }, "finish_reason": null }] }"#),
        j(r#"{ "id": "chatcmpl_123", "choices": [{ "delta": {}, "finish_reason": "tool_calls" }] }"#),
    ];

    for line in lines {
        process_openai_sse_line(&format!("data: {}", v(&line)), &mut s, &None, usize::MAX, &mut out);
    }

    let chunks = out;
    assert!(matches!(
        chunks.first(),
        Some(ApiStreamChunk::ToolCallStarted { call_id, name })
            if call_id == "call_qwen" && name == "execute_command"
    ));
    assert!(chunks.iter().any(|chunk| matches!(
        chunk,
        ApiStreamChunk::ToolCalls(tool_chunk)
            if tool_chunk.tool_call.call_id.as_deref() == Some("call_qwen")
                && tool_chunk.tool_call.function.name.as_deref() == Some("execute_command")
                && tool_chunk
                    .tool_call
                    .function
                    .arguments
                    .as_deref()
                    .map(j)
                    == Some(j(r#"{"commands": ["pwd"]}"#))
    )));
}

#[test]
fn test_qwen_thinking_wrapper_does_not_normalize_mismatched_or_unsafe_names() {
    assert_eq!(
        normalize_qwen_thinking_tool_name(
            "read_file\n</think>\n\n<tool_call>\n<function=write_to_file"
        ),
        None
    );
    assert_eq!(
        normalize_qwen_thinking_tool_name(
            "write_to_file;\n</think>\n\n<tool_call>\n<function=write_to_file;"
        ),
        None
    );
}

#[test]
fn test_qwen_thinking_wrapper_normalizes_trailing_tag_delimiter() {
    assert_eq!(
        normalize_qwen_thinking_tool_name(
            "write_to_file\n</think>\n\n<tool_call>\n<function=write_to_file>"
        ),
        Some("write_to_file".to_string())
    );
}

#[test]
fn debug_openai_text_only_stream() {
    let sse = r#"
data: {"id":"chatcmpl-123","object":"chat.completion.chunk","created":1694268190,"model":"gpt-4","choices":[{"index":0,"delta":{"content":"Hello"},"finish_reason":null}]}

data: {"id":"chatcmpl-123","object":"chat.completion.chunk","created":1694268190,"model":"gpt-4","choices":[{"index":0,"delta":{"content":" world"},"finish_reason":null}]}

data: {"id":"chatcmpl-123","object":"chat.completion.chunk","created":1694268190,"model":"gpt-4","choices":[{"index":0,"delta":{},"finish_reason":"stop"}]}

data: [DONE]
"#;

    let mut buffer = SseLineBuffer::default();
    let mut s = OpenAiStreamDeltaState::default();
    let mut out: Vec<ApiStreamChunk> = Vec::new();
    parse_openai_sse_to_chunks(sse.as_bytes(), &mut buffer, &mut s, &None, usize::MAX, &mut out);
    finish_openai_sse_to_chunks(&mut buffer, &mut s, &None, usize::MAX, &mut out);

    let text: String = out
        .iter()
        .map(|c| match c {
            ApiStreamChunk::Text(t) => t.text.as_str(),
            _ => "",
        })
        .collect();
    assert_eq!(text, "Hello world");
    println!("Total chunks: {}", out.len());
}

#[test]
fn test_sse_fallback_without_usage_emits_synthetic_usage() {
    let mut buffer = SseLineBuffer::default();
    let mut s = OpenAiStreamDeltaState::default();
    let mut out: Vec<ApiStreamChunk> = Vec::new();
    let sse = br#"data: {"id":"chatcmpl-fallback","choices":[{"delta":{"content":"ok"},"finish_reason":"stop"}]}
"#;

    parse_openai_sse_to_chunks(sse, &mut buffer, &mut s, &None, usize::MAX, &mut out);
    finish_openai_sse_to_chunks(&mut buffer, &mut s, &None, usize::MAX, &mut out);

    assert!(out.iter().any(|chunk| matches!(
        chunk,
        ApiStreamChunk::Usage(usage)
            if usage.input_tokens == 0
                && usage.output_tokens == 0
                && usage.stop_reason.as_deref() == Some("stop")
    )));
}

#[test]
fn test_non_stream_create_message_sniffs_sse_without_sse_content_type() {
    let sse_body =
        br#"data: {"id":"chatcmpl-fallback","choices":[{"delta":{"content":"ok"},"finish_reason":"stop"}]}

"#;
    assert!(!is_event_stream(&Some("application/json".to_string())));
    assert!(body_looks_like_sse(sse_body));
    let chunks = decode_openai_body(sse_body, "expected value", &None).unwrap();
    assert!(chunks.iter().any(|chunk| matches!(
        chunk,
        ApiStreamChunk::Usage(usage)
            if usage.output_tokens == 0
                && usage.stop_reason.as_deref() == Some("stop")
    )));
    assert_eq!(decode_openai_sse_body(sse_body, &None), chunks);
}

#[test]
fn test_cache_tokens_not_double_counted_in_cost() {
    // Test that cached tokens are subtracted from input_tokens and cost is calculated correctly
    let sse = r#"
data: {"id":"chatcmpl-123","object":"chat.completion.chunk","created":1694268190,"model":"gpt-4","choices":[{"index":0,"delta":{},"finish_reason":"stop"}],"usage":{"prompt_tokens":1000,"completion_tokens":100,"prompt_tokens_details":{"cached_tokens":800}}}
"#;

    let mut buffer = SseLineBuffer::default();
    let mut s = OpenAiStreamDeltaState::default();
    let mut out: Vec<ApiStreamChunk> = Vec::new();

    // Use model info with pricing
    let model_info = Some(OpenAiCompatibleModelInfo {
        base: ModelInfo {
            name: Some("gpt-4".to_string()),
            max_tokens: Some(8192),
            context_window: Some(128_000),
            supports_images: Some(true),
            supports_prompt_cache: true,
            supports_reasoning: Some(false),
            input_price: Some(10000000),  // $10 per 1M tokens
            output_price: Some(30000000), // $30 per 1M tokens
            image_output_price: None,
            thinking_config: None,
            supports_global_endpoint: None,
            cache_writes_price: Some(5000000), // $5 per 1M tokens
            cache_reads_price: Some(500000),  // $0.50 per 1M tokens (discounted)
            description: None,
            tiers: None,
            temperature: None,
            top_p: None,
            top_k: None,
            supports_tools: None,
            api_format: None,
        },
        is_r1_format_required: None,
        system_role: None,
        supports_reasoning_effort: None,
        supports_streaming: None,
    });

    parse_openai_sse_to_chunks(sse.as_bytes(), &mut buffer, &mut s, &model_info, usize::MAX, &mut out);
    finish_openai_sse_to_chunks(&mut buffer, &mut s, &model_info, usize::MAX, &mut out);
    let chunks = out;

    // Find the usage chunk
    let usage_chunk = chunks
        .iter()
        .find_map(|c| match c {
            ApiStreamChunk::Usage(u) => Some(u),
            _ => None,
        })
        .expect("Should have usage chunk");

    // Verify input_tokens excludes cached tokens (1000 - 800 = 200)
    assert_eq!(
        usage_chunk.input_tokens, 200,
        "input_tokens should exclude cached tokens"
    );

    // Verify cache_read_tokens is reported separately
    assert_eq!(
        usage_chunk.cache_read_tokens,
        Some(800),
        "cache_read_tokens should be 800"
    );

    // Verify cost calculation:
    // input_cost = 200 * $10 / 1M = $0.002
    // output_cost = 100 * $30 / 1M = $0.003
    // cache_read_cost = 800 * $0.50 / 1M = $0.0004
    // total = $0.0054
    assert_eq!(usage_chunk.total_cost, Some(5_400_000_000));
}

#[test]
fn bodies_that_are_nothing_known_are_refused_with_the_reason() {
    match decode_openai_body(b"<html>", "expected value at line 1 column 1", &None) {
        Err(ProviderError::InvalidRequest(m)) => assert_eq!(
            m,
            "OpenAI non-stream response was not valid chat.completion JSON: expected value at line 1 column 1"
        ),
        other => panic!("unexpected outcome: {other:?}"),
    }
}

#[test]
fn hints_name_the_provider_of_a_model() {
    let family = ModelFamily { word: "acme".to_string(), title: "Acme".to_string() };
    assert_eq!(
        hint_body(404, "Acme-large", "no such model".to_string(), &family),
        "no such model\n\nHint: Model 'Acme-large' looks like an Anthropic Acme model. If you intended to use Acme, set ANTHROPIC_API_KEY or use --provider anthropic."
    );
    assert_eq!(
        hint_body(404, "gemini-3-pro", "x".to_string(), &family),
        "x\n\nHint: Model 'gemini-3-pro' looks like a Google Gemini model. If you intended to use Gemini, set GEMINI_API_KEY or use --provider gemini."
    );
    assert_eq!(hint_body(500, "gemini-3-pro", "x".to_string(), &family), "x");
    assert_eq!(hint_body(404, "gpt-4o", "x".to_string(), &family), "x");
}

#[test]
fn calls_are_announced_once_and_handed_out_once() {
    let mut buffer = SseLineBuffer::default();
    let mut s = OpenAiStreamDeltaState::default();
    let mut out: Vec<ApiStreamChunk> = Vec::new();
    let line = r#"data: {"id":"c","choices":[{"delta":{"tool_calls":[{"index":0,"id":"call","function":{"name":"f","arguments":"{}"}}]},"finish_reason":"tool_calls"}]}"#;
    process_openai_sse_line(line, &mut s, &None, usize::MAX, &mut out);
    process_openai_sse_line(line, &mut s, &None, usize::MAX, &mut out);
    finish_openai_sse_to_chunks(&mut buffer, &mut s, &None, usize::MAX, &mut out);
    let started = out.iter().filter(|c| matches!(c, ApiStreamChunk::ToolCallStarted { .. })).count();
    let calls = out.iter().filter(|c| matches!(c, ApiStreamChunk::ToolCalls(_))).count();
    assert_eq!((started, calls), (1, 1));
}

#[test]
fn a_session_waits_reads_and_reports() {
    let mut session = OpenAiSession::new();
    let mut out: Vec<ApiStreamChunk> = Vec::new();
    assert_eq!(session.patience(90_000, 60_000), 90_000);
    let bytes = StreamEvent::Bytes(b"data: {\"id\":\"c\",\"choices\":[{\"delta\":{\"content\":\"hi\"},\"finish_reason\":null}]}\n".to_vec());
    let next = session.step(&bytes, 12, 90_000, &vec![], &None, usize::MAX, &mut out);
    assert!(matches!(next, NextStep::Continue));
    assert_eq!(session.patience(90_000, 60_000), 60_000);
    let next = session.step(&StreamEvent::TimedOut, 70_000, 60_000, &vec![], &None, usize::MAX, &mut out);
    assert!(matches!(next, NextStep::Stop));
    match out.last() {
        Some(ApiStreamChunk::Error(m)) => {
            assert!(m.starts_with("OpenAI SSE inactivity timeout after 60000ms; diagnostics: "));
            assert!(m.ends_with(" (retryable)"));
        }
        other => panic!("expected an error, got {other:?}"),
    }
}

#[test]
fn timeouts_come_from_settings_with_defaults() {
    assert_eq!(stream_timeout_from_env(&Some("7".to_string()), 90), 7);
    assert_eq!(stream_timeout_from_env(&None, 90), 90);
    assert_eq!(stream_timeout_from_env(&Some("soon".to_string()), 90), 90);
    assert_eq!(response_headers_timeout(&None), 30);
    assert!(matches!(headers_timed_out(30), ProviderError::NetworkError(_)));
}

#[test]
fn assistant_text_parts_are_joined() {
    let parts = vec![j(r#"{"type":"text","text":"a"}"#), j(r#"{"type":"text","text":"b"}"#)];
    assert_eq!(join_assistant_text_parts(&parts), "a\nb");
}

#[test]
fn slashes_around_the_completions_path_are_stripped() {
    for address in [
        "https://custom.example.com/v1",
        "https://custom.example.com/v1/",
        "https://custom.example.com/v1/chat/completions",
        "https://custom.example.com/v1/chat/completions/",
        " https://custom.example.com/v1//chat/completions// ",
    ] {
        let provider = OpenAiProvider::new(OpenAiConfig {
            api_key: "test-key".to_string(),
            base_url: Some(address.to_string()),
            model_id: "gpt-4".to_string(),
            model_info: None,
            reasoning_effort: None,
            extra_body: None,
            custom_headers: None,
            endpoint_kind: OpenAiEndpointKind::Compatible,
            stream: true,
            provider_name: None,
        });
        assert_eq!(provider.base_url(), "https://custom.example.com/v1");
        assert_eq!(
            provider.completions_url(),
            "https://custom.example.com/v1/chat/completions"
        );
    }
}

#[test]
fn calls_are_announced_again_where_an_announcement_was_refused() {
    let mut s = OpenAiStreamDeltaState::default();
    let mut out: Vec<ApiStreamChunk> = Vec::new();
    let line = r#"data: {"id":"c","choices":[{"delta":{"tool_calls":[{"index":0,"id":"a","function":{"name":"f"}},{"index":1,"id":"b","function":{"name":"g"}}]}}]}"#;
    process_openai_sse_line(line, &mut s, &None, 1, &mut out);
    assert_eq!(out.len(), 1);
    assert!(matches!(&out[0], ApiStreamChunk::ToolCallStarted { call_id, .. } if call_id == "a"));
    out.clear();
    let more = r#"data: {"id":"c","choices":[{"delta":{"tool_calls":[{"index":0,"function":{"arguments":"{}"}},{"index":1,"function":{"arguments":"{}"}}]}}]}"#;
    process_openai_sse_line(more, &mut s, &None, 1, &mut out);
    assert_eq!(out.len(), 1);
    assert!(matches!(&out[0], ApiStreamChunk::ToolCallStarted { call_id, .. } if call_id == "b"));
}
