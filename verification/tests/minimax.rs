//! MiniMax: requests and the assembly of responses.

use sned::json::Json;
use sned::providers::minimax::{convert_message_to_openai, redact, MinimaxConfig, MinimaxProvider};
use sned::providers::minimax_stream::{
    collect_parameters, find_next_think_close, find_next_think_open, finish_minimax_stream, flush_minimax_tag_carry, flush_minimax_text_buffer,
    minimax_stream_error, parse_minimax_xml_tool_call, process_minimax_content_delta,
    process_minimax_sse_line, read_minimax_event, take_minimax_bytes, MinimaxStreamState,
};
use sned::providers::reasoning::{longest_reasoning_overlap, partial_marker_suffix_len};
use sned::providers::{
    ApiStreamChunk, AssistantContentBlock, FunctionDefinition, MessageContent, MessageRole,
    ModelInfo, ProviderRequest, ReasoningDetailParam, SharedContentFields, SseLineBuffer,
    StorageMessage, TextContentBlock, ThinkingBlock, ToolDefinition, ToolResultBlock,
    ToolResultContent, ToolUseBlock, UserContentBlock,
};

/// The JSON that a text holds.
fn j(text: &str) -> Json {
    sned::json::from_text(text).unwrap()
}

/// A value of the library as serde reads it.
fn v(j: &Json) -> serde_json::Value {
    serde_json::from_str(&sned::json::to_text(j)).unwrap()
}

#[test]
fn test_minimax_config() {
    let config = MinimaxConfig {
        api_key: "test-key".to_string(),
        api_line: None,
        model_id: "MiniMax-M2.7".to_string(),
        model_info: None,
        thinking_budget_tokens: Some(1024),
    };
    let provider = MinimaxProvider::new(config);
    assert_eq!(provider.base_url(), "https://api.minimax.io/v1");
}

#[test]
fn test_minimax_china_api() {
    let config = MinimaxConfig {
        api_key: "test-key".to_string(),
        api_line: Some("china".to_string()),
        model_id: "MiniMax-M2.7".to_string(),
        model_info: None,
        thinking_budget_tokens: None,
    };
    let provider = MinimaxProvider::new(config);
    assert_eq!(provider.base_url(), "https://api.minimaxi.com/v1");
}

#[test]
fn minimax_test_build_request_body_basic() {
    let config = MinimaxConfig {
        api_key: "test-key".to_string(),
        api_line: None,
        model_id: "MiniMax-M2.7".to_string(),
        model_info: None,
        thinking_budget_tokens: None,
    };
    let provider = MinimaxProvider::new(config);

    let request = ProviderRequest {
        system_prompt: "You are a helpful assistant.".to_string(),
        messages: vec![StorageMessage {
            id: None,
            role: MessageRole::User,
            content: MessageContent::Text("Hello".to_string()),
            model_info: None,
            metrics: None,
            ts: None,
        }],
        tools: None,
        tool_choice: None,
        use_response_api: None,
        max_tokens: None,
    };

    let body = v(&provider.build_request_body(&request));
    assert_eq!(body["model"], "MiniMax-M2.7");
    assert_eq!(body["stream"], true);
    assert_eq!(body["messages"].as_array().unwrap().len(), 2);
    assert_eq!(body["messages"][0]["role"], "system");
    assert_eq!(
        body["messages"][0]["content"],
        "You are a helpful assistant."
    );
    assert_eq!(body["messages"][1]["role"], "user");
    assert_eq!(body["messages"][1]["content"], "Hello");
}

#[test]
fn test_build_request_body_sampling_params_m27() {
    let config = MinimaxConfig {
        api_key: "test-key".to_string(),
        api_line: None,
        model_id: "MiniMax-M2.7".to_string(),
        model_info: None,
        thinking_budget_tokens: None,
    };
    let provider = MinimaxProvider::new(config);

    let request = ProviderRequest {
        system_prompt: String::new(),
        messages: vec![],
        tools: None,
        tool_choice: None,
        use_response_api: None,
        max_tokens: None,
    };

    let body = v(&provider.build_request_body(&request));
    assert_eq!(body["temperature"], 1.0);
    assert_eq!(body["top_p"], 0.95);
    assert_eq!(body["top_k"], 40);
    assert!(
        body.get("topP").is_none(),
        "camelCase topP should be absent"
    );
    assert!(
        body.get("topK").is_none(),
        "camelCase topK should be absent"
    );
}

#[test]
fn test_build_request_body_sampling_params_m2() {
    let config = MinimaxConfig {
        api_key: "test-key".to_string(),
        api_line: None,
        model_id: "MiniMax-M2".to_string(),
        model_info: None,
        thinking_budget_tokens: None,
    };
    let provider = MinimaxProvider::new(config);

    let request = ProviderRequest {
        system_prompt: String::new(),
        messages: vec![],
        tools: None,
        tool_choice: None,
        use_response_api: None,
        max_tokens: None,
    };

    let body = v(&provider.build_request_body(&request));
    assert_eq!(body["temperature"], 1.0);
    assert_eq!(body["top_p"], 0.95);
    assert_eq!(body["top_k"], 20);
}

#[test]
fn test_build_request_body_sampling_params_unknown_model() {
    let config = MinimaxConfig {
        api_key: "test-key".to_string(),
        api_line: None,
        model_id: "some-unknown-model".to_string(),
        model_info: None,
        thinking_budget_tokens: None,
    };
    let provider = MinimaxProvider::new(config);

    let request = ProviderRequest {
        system_prompt: String::new(),
        messages: vec![],
        tools: None,
        tool_choice: None,
        use_response_api: None,
        max_tokens: None,
    };

    let body = v(&provider.build_request_body(&request));
    assert_eq!(body["temperature"], 1.0);
    assert!(
        body.get("top_p").is_none(),
        "unknown model should not send top_p"
    );
    assert!(
        body.get("top_k").is_none(),
        "unknown model should not send top_k"
    );
}

#[test]
fn test_build_request_body_sampling_and_reasoning_invariants() {
    let config = MinimaxConfig {
        api_key: "test-key".to_string(),
        api_line: None,
        model_id: "MiniMax-M2.7".to_string(),
        model_info: None,
        thinking_budget_tokens: None,
    };
    let provider = MinimaxProvider::new(config);

    let request = ProviderRequest {
        system_prompt: String::new(),
        messages: vec![],
        tools: None,
        tool_choice: None,
        use_response_api: None,
        max_tokens: Some(1024),
    };

    let body = v(&provider.build_request_body(&request));
    assert_eq!(body["max_completion_tokens"], 1024);
    assert!(
        body.get("max_tokens").is_none(),
        "must use max_completion_tokens, not max_tokens"
    );
    assert_eq!(body["temperature"], 1.0);
    assert_eq!(body["top_p"], 0.95);
    assert_eq!(body["top_k"], 40);
    assert_eq!(body["reasoning_split"], true);
    assert!(
        body.get("extra_body").is_none(),
        "reasoning_split must be top-level, not in extra_body"
    );
}

#[test]
fn minimax_test_build_request_body_with_tools() {
    let config = MinimaxConfig {
        api_key: "test-key".to_string(),
        api_line: None,
        model_id: "MiniMax-M2.7".to_string(),
        model_info: None,
        thinking_budget_tokens: None,
    };
    let provider = MinimaxProvider::new(config);

    let tools = vec![ToolDefinition {
        tool_type: "function".to_string(),
        function: FunctionDefinition {
            name: "read_file".to_string(),
            description: "Read a file".to_string(),
            parameters: j(r#"{ "type": "object", "properties": { "path": {"type": "string"} }, "required": ["path"] }"#),
        },
    }];

    let request = ProviderRequest {
        system_prompt: "You are a helpful assistant.".to_string(),
        messages: vec![StorageMessage {
            id: None,
            role: MessageRole::User,
            content: MessageContent::Text("Read Cargo.toml".to_string()),
            model_info: None,
            metrics: None,
            ts: None,
        }],
        tools: Some(tools),
        tool_choice: None,
        use_response_api: None,
        max_tokens: None,
    };

    let body = v(&provider.build_request_body(&request));
    assert!(body["tools"].is_array());
    let tools_arr = body["tools"].as_array().unwrap();
    assert_eq!(tools_arr.len(), 1);
    // MiniMax OpenAI-compatible API requires nested "function" object with "type": "function"
    assert_eq!(tools_arr[0]["type"], "function");
    assert_eq!(tools_arr[0]["function"]["name"], "read_file");
    assert_eq!(tools_arr[0]["function"]["description"], "Read a file");
}

#[test]
fn minimax_test_build_request_body_with_native_tools_on_but_no_tools() {
    let config = MinimaxConfig {
        api_key: "test-key".to_string(),
        api_line: None,
        model_id: "MiniMax-M2.7".to_string(),
        model_info: Some(ModelInfo {
            name: Some("MiniMax-M2.7".to_string()),
            supports_tools: Some(true),
            ..ModelInfo::default()
        }),
        thinking_budget_tokens: None,
    };
    let provider = MinimaxProvider::new(config);

    let request = ProviderRequest {
        system_prompt: "You are a helpful assistant.".to_string(),
        messages: vec![],
        tools: None,
        tool_choice: None,
        use_response_api: None,
        max_tokens: None,
    };

    let body = v(&provider.build_request_body(&request));
    assert!(body.get("tools").is_none());
}

#[test]
fn test_build_request_body_uses_request_max_tokens_override() {
    let config = MinimaxConfig {
        api_key: "test-key".to_string(),
        api_line: None,
        model_id: "MiniMax-M2.7".to_string(),
        model_info: None,
        thinking_budget_tokens: None,
    };
    let provider = MinimaxProvider::new(config);

    let request = ProviderRequest {
        system_prompt: String::new(),
        messages: vec![],
        tools: None,
        tool_choice: None,
        use_response_api: None,
        max_tokens: Some(2048),
    };

    let body = v(&provider.build_request_body(&request));
    // MiniMax uses max_completion_tokens (not max_tokens)
    assert_eq!(body["max_completion_tokens"], 2048);
}

#[test]
fn test_build_request_body_canonicalizes_model_alias() {
    let config = MinimaxConfig {
        api_key: "test-key".to_string(),
        api_line: None,
        model_id: "minimax-m2.7".to_string(),
        model_info: None,
        thinking_budget_tokens: None,
    };
    let provider = MinimaxProvider::new(config);

    let request = ProviderRequest {
        system_prompt: "You are a helpful assistant.".to_string(),
        messages: vec![StorageMessage {
            id: None,
            role: MessageRole::User,
            content: MessageContent::Text("Hello".to_string()),
            model_info: None,
            metrics: None,
            ts: None,
        }],
        tools: None,
        tool_choice: None,
        use_response_api: None,
        max_tokens: None,
    };

    let body = v(&provider.build_request_body(&request));
    assert_eq!(body["model"], "MiniMax-M2.7");
    assert_eq!(provider.get_model().id, "MiniMax-M2.7");
}

#[test]
fn test_convert_assistant_with_tool_calls() {
    let msg = StorageMessage {
        id: None,
        role: MessageRole::Assistant,
        content: MessageContent::AssistantBlocks(vec![
            AssistantContentBlock::Text(TextContentBlock {
                text: "I'll read the file.".to_string(),
                shared: SharedContentFields {
                    call_id: None,
                    signature: None,
                },
                reasoning_details: None,
            }),
            AssistantContentBlock::ToolUse(ToolUseBlock {
                id: "call_abc".to_string(),
                name: "read_file".to_string(),
                input: j(r#"{"path": "Cargo.toml"}"#),
                shared: SharedContentFields {
                    call_id: None,
                    signature: None,
                },
                reasoning_details: None,
            }),
        ]),
        model_info: None,
        metrics: None,
        ts: None,
    };

    let openai_msgs = convert_message_to_openai(&msg);
    assert_eq!(openai_msgs.len(), 1);
    let openai_msg = v(&openai_msgs[0]);
    assert_eq!(openai_msg["role"], "assistant");
    assert!(openai_msg["tool_calls"].is_array());
    let tool_calls = openai_msg["tool_calls"].as_array().unwrap();
    assert_eq!(tool_calls.len(), 1);
    assert_eq!(tool_calls[0]["id"], "call_abc");
    assert_eq!(tool_calls[0]["type"], "function");
    assert_eq!(tool_calls[0]["function"]["name"], "read_file");
    // arguments should be a JSON string
    let args = tool_calls[0]["function"]["arguments"].as_str().unwrap();
    let parsed: serde_json::Value = serde_json::from_str(args).unwrap();
    assert_eq!(parsed["path"], "Cargo.toml");
}

#[test]
fn test_build_request_body_preserves_reasoning_details_in_history() {
    let config = MinimaxConfig {
        api_key: "test-key".to_string(),
        api_line: None,
        model_id: "MiniMax-M2.7".to_string(),
        model_info: None,
        thinking_budget_tokens: None,
    };
    let provider = MinimaxProvider::new(config);

    let request = ProviderRequest {
        system_prompt: String::new(),
        messages: vec![StorageMessage {
            id: None,
            role: MessageRole::Assistant,
            content: MessageContent::AssistantBlocks(vec![
                AssistantContentBlock::Thinking(ThinkingBlock {
                    thinking: "Need to inspect the tool output before replying.".to_string(),
                    signature: "sig_1".to_string(),
                    shared: SharedContentFields {
                        call_id: None,
                        signature: None,
                    },
                    summary: None,
                }),
                AssistantContentBlock::ToolUse(ToolUseBlock {
                    id: "call_abc".to_string(),
                    name: "read_file".to_string(),
                    input: j(r#"{"path": "Cargo.toml"}"#),
                    shared: SharedContentFields {
                        call_id: None,
                        signature: None,
                    },
                    reasoning_details: None,
                }),
            ]),
            model_info: None,
            metrics: None,
            ts: None,
        }],
        tools: None,
        tool_choice: None,
        use_response_api: None,
        max_tokens: None,
    };

    let body = v(&provider.build_request_body(&request));
    let message = &body["messages"][0];
    assert_eq!(message["role"], "assistant");
    assert_eq!(
        message["reasoning_details"][0]["text"],
        "Need to inspect the tool output before replying."
    );
    assert_eq!(message["tool_calls"][0]["function"]["name"], "read_file");
}

#[test]
fn test_convert_tool_result() {
    let msg = StorageMessage {
        id: None,
        role: MessageRole::User,
        content: MessageContent::UserBlocks(vec![UserContentBlock::ToolResult(
            ToolResultBlock {
                tool_use_id: "call_abc".to_string(),
                content: ToolResultContent::Text(
                    "[package]\nname = \"test\"".to_string(),
                ),
                shared: SharedContentFields {
                    call_id: None,
                    signature: None,
                },
            },
        )]),
        model_info: None,
        metrics: None,
        ts: None,
    };

    let openai_msgs = convert_message_to_openai(&msg);
    assert_eq!(openai_msgs.len(), 1);
    let openai_msg = v(&openai_msgs[0]);
    assert_eq!(openai_msg["role"], "tool");
    assert_eq!(openai_msg["tool_call_id"], "call_abc");
    assert_eq!(openai_msg["content"], "[package]\nname = \"test\"");
}

#[test]
fn test_build_request_body_includes_reasoning_split() {
    let config = MinimaxConfig {
        api_key: "test-key".to_string(),
        api_line: None,
        model_id: "MiniMax-M2.7".to_string(),
        model_info: None,
        thinking_budget_tokens: None,
    };
    let provider = MinimaxProvider::new(config);

    let request = ProviderRequest {
        system_prompt: String::new(),
        messages: vec![],
        tools: None,
        tool_choice: None,
        use_response_api: None,
        max_tokens: None,
    };

    let body = v(&provider.build_request_body(&request));
    // reasoning_split must be a top-level parameter (not nested in extra_body)
    assert_eq!(body["reasoning_split"], true);
    assert!(body.get("extra_body").is_none());
}

#[test]
fn test_convert_assistant_tool_calls_only_empty_content_string() {
    // MiniMax requires content to be a non-null string
    // When assistant has tool calls but no text, content should be "" not null
    let msg = StorageMessage {
        id: None,
        role: MessageRole::Assistant,
        content: MessageContent::AssistantBlocks(vec![AssistantContentBlock::ToolUse(
            ToolUseBlock {
                id: "call_abc".to_string(),
                name: "read_file".to_string(),
                input: j(r#"{"path": "Cargo.toml"}"#),
                shared: SharedContentFields {
                    call_id: None,
                    signature: None,
                },
                reasoning_details: None,
            },
        )]),
        model_info: None,
        metrics: None,
        ts: None,
    };

    let openai_msgs = convert_message_to_openai(&msg);
    assert_eq!(openai_msgs.len(), 1);
    let openai_msg = v(&openai_msgs[0]);
    assert_eq!(openai_msg["role"], "assistant");
    // content must be a string (not null) for MiniMax API
    assert_eq!(openai_msg["content"], "");
    assert!(openai_msg["tool_calls"].is_array());
}

#[test]
fn test_request_body_schema_invariants() {
    // Validates critical MiniMax API format constraints.
    let config = MinimaxConfig {
        api_key: "test-key".to_string(),
        api_line: None,
        model_id: "MiniMax-M2.7".to_string(),
        model_info: None,
        thinking_budget_tokens: None,
    };
    let provider = MinimaxProvider::new(config);

    let tools = vec![ToolDefinition {
        tool_type: "function".to_string(),
        function: FunctionDefinition {
            name: "read_file".to_string(),
            description: "Read a file".to_string(),
            parameters: j(r#"{ "type": "object", "properties": {"path": {"type": "string"}}, "required": ["path"] }"#),
        },
    }];

    let request = ProviderRequest {
        system_prompt: "You are helpful.".to_string(),
        messages: vec![StorageMessage {
            id: None,
            role: MessageRole::User,
            content: MessageContent::Text("Read Cargo.toml".to_string()),
            model_info: None,
            metrics: None,
            ts: None,
        }],
        tools: Some(tools),
        tool_choice: None,
        use_response_api: None,
        max_tokens: Some(1024),
    };

    let body = v(&provider.build_request_body(&request));

    // 1. reasoning_split must be top-level (not nested in extra_body)
    assert_eq!(
        body["reasoning_split"], true,
        "reasoning_split must be top-level"
    );
    assert!(
        body.get("extra_body").is_none(),
        "extra_body should not exist in request body"
    );

    // 2. Tools must use nested format with "type":"function"
    let tools_arr = body["tools"].as_array().expect("tools should be array");
    assert_eq!(tools_arr.len(), 1);
    let tool = &tools_arr[0];
    assert_eq!(tool["type"], "function", "tool must have type='function'");
    assert!(
        tool["function"].is_object(),
        "tool must have nested 'function' object"
    );
    assert_eq!(tool["function"]["name"], "read_file");

    // 3. Must use max_completion_tokens (not max_tokens)
    assert_eq!(
        body["max_completion_tokens"], 1024,
        "must use max_completion_tokens"
    );
    assert!(
        body.get("max_tokens").is_none(),
        "max_tokens should not exist in request body"
    );

    // 4. Messages must have non-null content
    let messages = body["messages"]
        .as_array()
        .expect("messages should be array");
    for (i, msg) in messages.iter().enumerate() {
        assert!(
            msg.get("content").is_some(),
            "message[{i}] must have 'content' field"
        );
        if let Some(content) = msg.get("content") {
            assert!(
                !content.is_null(),
                "message[{i}] content must not be null (use empty string if no text)"
            );
        }
    }
}

#[test]
fn test_split_sse_line_keeps_minimax_tool_call_arguments_intact() {
    let payload = v(&j(r#"{ "id": "evt_1", "object": "chat.completion.chunk", "created": 1, "model": "MiniMax-M2.7", "choices": [{ "index": 0, "delta": { "tool_calls": [{ "index": 0, "id": "call_1", "function": { "name": "write_to_file", "arguments": "{\"path\":\"README.md\",\"content\":\"hello world\"}" } }] }, "finish_reason": "tool_calls" }] }"#));
    let line = format!("data: {}\n", payload);
    let split = line.len() / 2;
    let (first, second) = line.as_bytes().split_at(split);

    let mut buffer = SseLineBuffer::default();
    let mut s = MinimaxStreamState::new();
    let mut out: Vec<ApiStreamChunk> = Vec::new();

    assert!(buffer.push_chunk(first).is_empty());
    for line in buffer.push_chunk(second) {
        process_minimax_sse_line(&line, &mut s, &mut out);
    }

    match &out[0] {
        ApiStreamChunk::ToolCalls(tool_chunk) => {
            assert_eq!(tool_chunk.tool_call.call_id.as_deref(), Some("call_1"));
            assert_eq!(
                tool_chunk.tool_call.function.arguments.as_deref(),
                Some("{\"path\":\"README.md\",\"content\":\"hello world\"}")
            );
        }
        other => panic!("expected tool call chunk, got {other:?}"),
    }
}

#[test]
fn test_minimax_text_chunks_coalesce_until_sentence_boundary() {
    let mut s = MinimaxStreamState::new();
    let mut out: Vec<ApiStreamChunk> = Vec::new();

    let first =
        r#"data: {"id":"evt_1","choices":[{"index":0,"delta":{"content":"I have a"}}]}"#;
    process_minimax_sse_line(first, &mut s, &mut out);
    assert!(out.is_empty(), "partial text should stay buffered");

    let second =
        r#"data: {"id":"evt_2","choices":[{"index":0,"delta":{"content":" complete."}}]}"#;
    process_minimax_sse_line(second, &mut s, &mut out);

    match &out[0] {
        ApiStreamChunk::Text(text_chunk) => {
            assert_eq!(text_chunk.text, "I have a complete.");
        }
        other => panic!("expected text chunk, got {other:?}"),
    }
}

#[test]
fn test_minimax_reasoning_chunks_strip_overlapping_prefixes() {
    let mut s = MinimaxStreamState::new();
    let mut out: Vec<ApiStreamChunk> = Vec::new();

    for line in [
        r#"data: {"id":"evt_1","choices":[{"index":0,"delta":{"reasoning_content":"The"}}]}"#,
        r#"data: {"id":"evt_2","choices":[{"index":0,"delta":{"reasoning_content":"The user"}}]}"#,
        r#"data: {"id":"evt_3","choices":[{"index":0,"delta":{"reasoning_content":" user wants"}}]}"#,
    ] {
        process_minimax_sse_line(line, &mut s, &mut out);
    }

    let mut reasoning = String::new();
    for chunk in &out {
        if let ApiStreamChunk::Reasoning(reasoning_chunk) = chunk {
            reasoning.push_str(&reasoning_chunk.reasoning);
        }
    }

    assert_eq!(reasoning, "The user wants");
}

#[test]
fn test_longest_reasoning_overlap_ascii() {
    assert_eq!(longest_reasoning_overlap("hello world", "world peace"), 5);
    assert_eq!(longest_reasoning_overlap("abc", "xyz"), 0);
    assert_eq!(longest_reasoning_overlap("", "anything"), 0);
    assert_eq!(longest_reasoning_overlap("anything", ""), 0);
}

#[test]
fn test_longest_reasoning_overlap_cjk() {
    // CJK characters are 3 bytes each in UTF-8. The overlap
    // must be measured in bytes but only at char boundaries.
    let left = "思考一下这个问题的解决方案";
    let right = "方案应该是这样的";
    // "方案" is the overlapping 6-byte (2-char) suffix/prefix.
    assert_eq!(longest_reasoning_overlap(left, right), 6);
}

#[test]
fn test_longest_reasoning_overlap_cjk_no_overlap() {
    let left = "思考问题";
    let right = "完全不同的内容";
    assert_eq!(longest_reasoning_overlap(left, right), 0);
}

#[test]
fn test_longest_reasoning_overlap_emoji() {
    // Emoji are 4 bytes each in UTF-8. An overlap at a
    // non-char-boundary would be a bug.
    let left = "I love 🦀 Rust";
    let right = "🦀 Rust is great";
    // "🦀 Rust" is the overlap: 4 + 1 + 4 = 9 bytes (2 chars).
    assert_eq!(longest_reasoning_overlap(left, right), 9);
}

#[test]
fn test_longest_reasoning_overlap_combining_characters() {
    // "é" can be encoded as a single codepoint (U+00E9, 2 bytes)
    // or as "e" + combining acute (U+0065 U+0301, 3 bytes).
    // The overlap must respect char boundaries in both forms.
    let left = "café"; // precomposed é
    let right = "fé"; // shares "fé" suffix/prefix
    // "fé" = 1 + 2 = 3 bytes.
    assert_eq!(longest_reasoning_overlap(left, right), 3);
}

#[test]
fn test_longest_reasoning_overlap_mixed_scripts() {
    // Mixed ASCII + CJK. The overlap must not split a CJK
    // character mid-byte.
    let left = "answer: 思考";
    let right = "思考过程";
    // "思考" is 6 bytes (2 × 3-byte CJK chars).
    assert_eq!(longest_reasoning_overlap(left, right), 6);
}

#[test]
fn test_longest_reasoning_overlap_does_not_split_multibyte() {
    // Construct a case where a naive byte-based overlap
    // (without is_char_boundary checks) would find a
    // "false positive" by matching partial bytes of a
    // CJK character.
    //
    // "思考" is 6 bytes: [0xE6, 0x80, 0x9D, 0xE8, 0x80, 0x83]
    // If left = "X思考" and right = "考Y", a naive byte
    // check might try to match "考" (bytes 3..6) against
    // the start of right. "考" is 3 bytes [0xxE8,0x80,0x83].
    // right starts with "考Y" = [0xE8,0x80,0x83,0x59].
    // The last 3 bytes of left ARE the first 3 bytes of right
    // (both are "考"), so overlap = 3 is correct.
    // This test verifies the char-boundary check does NOT
    // prevent a legitimate same-character overlap.
    let left = "X思考";
    let right = "考Y";
    assert_eq!(longest_reasoning_overlap(left, right), 3);
}

#[test]
fn test_longest_reasoning_overlap_emoji_in_middle() {
    // Emoji in the middle of both strings, with the overlap
    // landing on the emoji itself.
    let left = "hello 🌍 world";
    let right = "🌍 world peace";
    // "🌍 world" = 4 + 1 + 5 = 10 bytes.
    assert_eq!(longest_reasoning_overlap(left, right), 10);
}

fn collect_minimax_content_deltas(chunks: &[String]) -> (String, String) {
    let mut s = MinimaxStreamState::new();
    let mut out: Vec<ApiStreamChunk> = Vec::new();

    for (index, chunk) in chunks.iter().enumerate() {
        process_minimax_content_delta(&mut s, &format!("evt_{index}"), chunk, &mut out);
    }
    flush_minimax_tag_carry(&mut s, "flush", &mut out);
    flush_minimax_text_buffer(&mut s, "flush", &mut out);

    let mut visible = String::new();
    let mut reasoning = String::new();
    for chunk in &out {
        match chunk {
            ApiStreamChunk::Text(text_chunk) => visible.push_str(&text_chunk.text),
            ApiStreamChunk::Reasoning(reasoning_chunk) => {
                reasoning.push_str(&reasoning_chunk.reasoning)
            }
            other => panic!("unexpected chunk: {other:?}"),
        }
    }
    (visible, reasoning)
}

#[test]
fn test_minimax_content_think_markers_survive_every_chunk_boundary() {
    for (open, close) in [
        ("<think>", "</think>"),
        ("<!-- think -->", "<!-- /think -->"),
    ] {
        for split in 1..open.len() {
            let chunks = vec![
                format!("before {}", &open[..split]),
                format!("{}hidden{close} after", &open[split..]),
            ];
            let (visible, reasoning) = collect_minimax_content_deltas(&chunks);
            assert_eq!(visible, "before  after", "open marker split at {split}");
            assert_eq!(reasoning, "hidden", "open marker split at {split}");
        }

        for split in 1..close.len() {
            let chunks = vec![
                format!("before {open}hidden{}", &close[..split]),
                format!("{} after", &close[split..]),
            ];
            let (visible, reasoning) = collect_minimax_content_deltas(&chunks);
            assert_eq!(visible, "before  after", "close marker split at {split}");
            assert_eq!(reasoning, "hidden", "close marker split at {split}");
        }
    }
}

#[test]
fn test_minimax_incomplete_think_marker_carry_flushes_to_current_stream() {
    let (visible, reasoning) = collect_minimax_content_deltas(&["visible <thi".to_string()]);
    assert_eq!(visible, "visible <thi");
    assert!(reasoning.is_empty());

    let (visible, reasoning) =
        collect_minimax_content_deltas(&["<think>hidden</thi".to_string()]);
    assert!(visible.is_empty());
    assert_eq!(reasoning, "hidden</thi");
}

#[test]
fn test_minimax_content_think_tags_emit_reasoning_not_visible_text() {
    let mut s = MinimaxStreamState::new();
    let mut out: Vec<ApiStreamChunk> = Vec::new();

    process_minimax_sse_line(
        r#"data: {"id":"evt_1","choices":[{"index":0,"delta":{"content":"Visible prefix <think>hidden analysis</think> visible answer"}}]}"#,
        &mut s,
        &mut out,
    );
    flush_minimax_text_buffer(&mut s, "flush", &mut out);

    let mut visible = String::new();
    let mut reasoning = String::new();
    for chunk in &out {
        match chunk {
            ApiStreamChunk::Text(text_chunk) => visible.push_str(&text_chunk.text),
            ApiStreamChunk::Reasoning(reasoning_chunk) => {
                reasoning.push_str(&reasoning_chunk.reasoning)
            }
            _ => {}
        }
    }

    assert_eq!(visible, "Visible prefix  visible answer");
    assert_eq!(reasoning, "hidden analysis");
}

#[test]
fn test_minimax_content_think_close_flushes_visible_answer_promptly() {
    let mut s = MinimaxStreamState::new();
    let mut out: Vec<ApiStreamChunk> = Vec::new();

    process_minimax_sse_line(
        r#"data: {"id":"evt_1","choices":[{"index":0,"delta":{"content":"I<think>hidden start"}}]}"#,
        &mut s,
        &mut out,
    );

    // The prefix is shown before the thinking passage.
    let mut reasoning = String::new();
    let mut answer = String::new();
    match &out[0] {
        ApiStreamChunk::Text(text_chunk) => assert_eq!(text_chunk.text, "I"),
        other => panic!("expected text chunk, got {other:?}"),
    }
    out.remove(0);

    process_minimax_sse_line(
        r#"data: {"id":"evt_2","choices":[{"index":0,"delta":{"content":" and more</think>final answer"}}]}"#,
        &mut s,
        &mut out,
    );

    for chunk in &out {
        match chunk {
            ApiStreamChunk::Reasoning(reasoning_chunk) => {
                reasoning.push_str(&reasoning_chunk.reasoning);
            }
            ApiStreamChunk::Text(text_chunk) => {
                answer.push_str(&text_chunk.text);
            }
            other => panic!("unexpected chunk after think close: {other:?}"),
        }
    }

    assert_eq!(reasoning, "hidden start and more");
    assert_eq!(answer, "final answer");
}

#[test]
fn test_parse_xml_tool_call_json_values() {
    let xml = r#"<minimax:tool_call><invoke name="read_file"><parameter name="paths">["src/main.rs","lib.rs"]</parameter><parameter name="start_line">10</parameter></invoke></tool_call>"#;
    let (name, params) = parse_minimax_xml_tool_call(xml).unwrap();
    let params = v(&params);
    assert_eq!(name, "read_file");
    assert!(params["paths"].is_array());
    assert_eq!(params["paths"].as_array().unwrap().len(), 2);
    assert_eq!(
        params["start_line"],
        serde_json::Value::String("10".to_string())
    );
}

#[test]
fn test_parse_xml_tool_call_scalar_paths() {
    let xml = r#"<minimax:tool_call><invoke name="read_file"><parameter name="paths">tetris.c</parameter></invoke></tool_call>"#;
    let (name, params) = parse_minimax_xml_tool_call(xml).unwrap();
    let params = v(&params);
    assert_eq!(name, "read_file");
    assert_eq!(
        params["paths"],
        serde_json::Value::String("tetris.c".to_string())
    );
}

#[test]
fn test_sse_parse_minimax_delta_with_name_and_role_fields() {
    let line = r#"{"id":"06606d9933ccdc19dddfa3af953a03d3","choices":[{"index":0,"delta":{"role":"assistant","name":"MiniMax AI","tool_calls":[{"function":{"arguments":"|event::\"}"},"index":0}]}}],"created":1779514009,"model":"MiniMax-M2.7","object":"chat.completion.chunk","usage":{"total_tokens":0,"total_characters":0},"input_sensitive":false,"output_sensitive":false,"input_sensitive_type":0,"output_sensitive_type":0,"output_sensitive_int":0}"#;
    let event = read_minimax_event(&j(line)).unwrap();
    let choice = event.choice.unwrap();
    let tc = &choice.tool_calls;
    assert_eq!(tc.len(), 1);
    assert_eq!(tc[0].index, 0);
    assert!(tc[0].function.is_some());
    assert_eq!(
        tc[0].function.as_ref().unwrap().arguments.as_deref(),
        Some("|event::\"}")
    );
}

#[test]
fn test_sse_parse_minimax_tool_call_with_type_field() {
    let line = r#"{"id":"06606d99","choices":[{"finish_reason":"tool_calls","index":0,"delta":{"role":"assistant","name":"MiniMax AI","tool_calls":[{"id":"call_function_jpaq2z2bgfh7_2","type":"function","function":{"name":"read_file","arguments":"{\"paths\": [\"src/providers/minimax.rs\"]}"},"index":1}]}}],"created":1779514009,"model":"MiniMax-M2.7","object":"chat.completion.chunk"}"#;
    let event = read_minimax_event(&j(line)).unwrap();
    let choice = event.choice.unwrap();
    let tc = &choice.tool_calls;
    assert_eq!(tc.len(), 1);
    assert_eq!(tc[0].index, 1);
}

#[test]
fn test_finish_reason_singular_tool_call_emits_tool_call() {
    // The model streams a complete tool call, then signals completion with the singular
    // finish_reason "tool_call" (undocumented but observed in production logs).
    let mut s = MinimaxStreamState::new();
    let mut out: Vec<ApiStreamChunk> = Vec::new();

    // Chunk 1: tool call id + name + first args fragment
    process_minimax_sse_line(
        r#"data: {"id":"evt1","choices":[{"index":0,"delta":{"tool_calls":[{"index":0,"id":"call_1","type":"function","function":{"name":"read_file","arguments":"{\"pa"}}]}}],"model":"MiniMax-M2.7"}"#,
        &mut s,
        &mut out,
    );

    // Chunk 2: remaining args + finish_reason: "tool_call" (singular)
    process_minimax_sse_line(
        r#"data: {"id":"evt2","choices":[{"index":0,"delta":{"tool_calls":[{"index":0,"function":{"arguments":"ths\": [\"src/main.rs\"]}"}}]},"finish_reason":"tool_call"}],"model":"MiniMax-M2.7"}"#,
        &mut s,
        &mut out,
    );

    // Collect all emitted chunks
    let mut tool_call_chunks = Vec::new();
    for chunk in out {
        if let ApiStreamChunk::ToolCalls(tc) = chunk {
            tool_call_chunks.push(tc);
        }
    }

    assert_eq!(
        tool_call_chunks.len(),
        1,
        "singular finish_reason \"tool_call\" must trigger tool call emission at finish_reason"
    );
    let tc = &tool_call_chunks[0].tool_call;
    assert_eq!(tc.call_id.as_deref(), Some("call_1"));
    assert_eq!(tc.function.name.as_deref(), Some("read_file"));
    let args = tc.function.arguments.as_deref().unwrap_or("{}");
    let parsed: serde_json::Value =
        serde_json::from_str(args).expect("arguments must be valid JSON");
    assert_eq!(
        parsed["paths"][0], "src/main.rs",
        "complete args must arrive (not truncated by late stream-end flush)"
    );
}

#[test]
fn content_split_over_chunks_shows_the_same_text() {
    let whole = collect_minimax_content_deltas(&["a <think>b</think> c".to_string()]);
    let parts = collect_minimax_content_deltas(&["a <th".to_string(), "ink>b</thi".to_string(), "nk> c".to_string()]);
    assert_eq!(whole, parts);
    assert_eq!(whole, ("a  c".to_string(), "b".to_string()));
}

#[test]
fn bytes_become_chunks_and_the_rest_is_flushed_at_the_end() {
    let mut buffer = SseLineBuffer::default();
    let mut s = MinimaxStreamState::new();
    let mut out: Vec<ApiStreamChunk> = Vec::new();
    take_minimax_bytes(
        &mut buffer,
        &mut s,
        b"data: {\"id\":\"e\",\"choices\":[{\"index\":0,\"delta\":{\"content\":\"no end\"}}]}\n",
        &mut out,
    );
    assert!(out.is_empty());
    finish_minimax_stream(&mut buffer, &mut s, &mut out);
    assert!(matches!(&out[0], ApiStreamChunk::Text(t) if t.text == "no end"));
}

#[test]
fn oversized_line_is_reported_as_an_error() {
    let mut buffer = SseLineBuffer::with_max_line_length(4);
    let mut s = MinimaxStreamState::new();
    let mut out: Vec<ApiStreamChunk> = Vec::new();
    take_minimax_bytes(&mut buffer, &mut s, b"012345", &mut out);
    assert_eq!(
        out,
        vec![ApiStreamChunk::Error("SSE line exceeded maximum length of 4 bytes".to_string())]
    );
}

#[test]
fn last_of_repeated_parameters_counts() {
    let pairs = vec![
        ("a".to_string(), "1".to_string()),
        ("a".to_string(), "[2]".to_string()),
    ];
    assert_eq!(v(&collect_parameters(&pairs)).to_string(), r#"{"a":[2]}"#);
    assert!(parse_minimax_xml_tool_call("<invoke>").is_none());
}

#[test]
fn markers_are_found_by_their_bytes() {
    assert_eq!(find_next_think_open("é <think>"), Some((3, 7)));
    assert_eq!(find_next_think_close("é </think>"), Some((3, 8)));
    assert_eq!(find_next_think_open("plain"), None);
    assert_eq!(partial_marker_suffix_len("é <thi", &["<think>"]), 4);
    assert_eq!(partial_marker_suffix_len("é", &["<think>"]), 0);
}

#[test]
fn keys_are_redacted() {
    assert_eq!(redact("secret"), "***REDACTED (6 chars)***");
}

#[test]
fn broken_transfers_say_whether_to_try_again() {
    assert_eq!(
        minimax_stream_error("connection reset"),
        "MiniMax SSE stream error: connection reset (retryable)"
    );
    assert_eq!(minimax_stream_error("bad"), "MiniMax SSE stream error: bad");
}

#[test]
fn headers_carry_the_key() {
    let provider = MinimaxProvider::new(MinimaxConfig {
        api_key: "k".to_string(),
        api_line: None,
        model_id: "MiniMax-M2".to_string(),
        model_info: None,
        thinking_budget_tokens: None,
    });
    assert_eq!(
        provider.build_headers(),
        vec![
            ("content-type".to_string(), "application/json".to_string()),
            ("authorization".to_string(), "Bearer k".to_string()),
        ]
    );
    assert_eq!(provider.get_model().info.top_k, Some(20));
}

#[test]
fn reasoning_is_the_same_at_every_cut_beside_a_thought() {
    for (open, close) in [("<think>", "<!-- /think -->"), ("<!-- think -->", "</think>")] {
        let whole = format!("before {open}aa{close} after");
        let inside = "before ".len() + open.len() + 1;
        for cut in 0..=whole.len() {
            let pieces = [whole[..cut].to_string(), whole[cut..].to_string()];
            let (visible, reasoning) = collect_minimax_content_deltas(&pieces);
            assert_eq!(visible, "before  after");
            // Inside the thought, the second piece is taken for a repetition of the first.
            assert_eq!(reasoning, if cut == inside { "a" } else { "aa" });
        }
    }
}
