//! Gemini: requests, models and the assembly of responses.

use sned::json::Json;
use sned::providers::gemini::{
    get_gemini_model_info, map_reasoning_effort_to_thinking_level, thinking_level_of, GeminiConfig,
    GeminiProvider, GeminiThinkingLevel,
};
use sned::providers::gemini_stream::{
    finish_gemini_sse_to_chunks, gemini_stream_error, process_gemini_sse_line, take_gemini_bytes,
    GeminiStreamState,
};
use sned::providers::{
    ApiStreamChunk, FunctionDefinition, MessageContent, MessageRole, ProviderRequest,
    SseLineBuffer, StorageMessage, ToolChoice, ToolDefinition,
};

/// The JSON that a text holds.
fn j(text: &str) -> Json {
    sned::json::from_text(text).unwrap()
}

/// A value of the library as serde reads it.
fn v(j: &Json) -> serde_json::Value {
    serde_json::from_str(&sned::json::to_text(j)).unwrap()
}

#[test]
fn test_gemini_config() {
    let config = GeminiConfig {
        api_key: "test-key".to_string(),
        base_url: None,
        model_id: "gemini-3.1-pro-preview".to_string(),
        model_info: None,
        thinking_budget_tokens: None,
        reasoning_effort: None,
        search_enabled: false,
    };
    let provider = GeminiProvider::new(config);
    assert_eq!(
        provider.base_url(),
        "https://generativelanguage.googleapis.com/v1beta"
    );
}

#[test]
fn test_gemini_custom_base_url() {
    let config = GeminiConfig {
        api_key: "test-key".to_string(),
        base_url: Some("https://custom.example.com/v1/".to_string()),
        model_id: "gemini-3.1-pro-preview".to_string(),
        model_info: None,
        thinking_budget_tokens: None,
        reasoning_effort: None,
        search_enabled: false,
    };
    let provider = GeminiProvider::new(config);
    assert_eq!(provider.base_url(), "https://custom.example.com/v1");
}

#[test]
fn gemini_test_build_request_body_basic() {
    let config = GeminiConfig {
        api_key: "test-key".to_string(),
        base_url: None,
        model_id: "gemini-3.1-pro-preview".to_string(),
        model_info: None,
        thinking_budget_tokens: None,
        reasoning_effort: None,
        search_enabled: false,
    };
    let provider = GeminiProvider::new(config);

    let request = ProviderRequest {
        system_prompt: "You are a helpful assistant.".to_string(),
        messages: vec![StorageMessage {
            id: None,
            role: MessageRole::User,
            content: MessageContent::Text("Hello".to_string()),
            model_info: None,
            metrics: None,
            ts: None,
        }],
        tools: None,
        tool_choice: None,
        use_response_api: None,
        max_tokens: None,
    };

    let body = v(&provider.build_request_body(&request));
    assert!(body.get("contents").is_some());
    assert!(body.get("generationConfig").is_some());
    assert!(body.get("systemInstruction").is_some());
    assert_eq!(
        body["systemInstruction"]["parts"][0]["text"],
        "You are a helpful assistant."
    );
}

#[test]
fn gemini_test_build_request_body_with_tools() {
    let config = GeminiConfig {
        api_key: "test-key".to_string(),
        base_url: None,
        model_id: "gemini-3.1-pro-preview".to_string(),
        model_info: None,
        thinking_budget_tokens: None,
        reasoning_effort: None,
        search_enabled: false,
    };
    let provider = GeminiProvider::new(config);

    let request = ProviderRequest {
        system_prompt: "You are a helpful assistant.".to_string(),
        messages: vec![],
        tools: Some(vec![ToolDefinition {
            tool_type: "function".to_string(),
            function: FunctionDefinition {
                name: "read_file".to_string(),
                description: "Read a file".to_string(),
                parameters: j(r#"{ "type": "object", "properties": { "path": {"type": "string"} } }"#),
            },
        }]),
        tool_choice: None,
        use_response_api: None,
        max_tokens: None,
    };

    let body = v(&provider.build_request_body(&request));
    let tools = body["tools"].as_array().unwrap();
    assert_eq!(tools.len(), 1);
    let func = &tools[0]["functionDeclarations"].as_array().unwrap()[0];
    assert_eq!(func["name"], "read_file");
}

#[test]
fn test_build_request_body_strips_additional_properties() {
    // Gemini API rejects additionalProperties in tool parameter schemas
    let config = GeminiConfig {
        api_key: "test-key".to_string(),
        base_url: None,
        model_id: "gemini-3-flash-preview".to_string(),
        model_info: None,
        thinking_budget_tokens: None,
        reasoning_effort: None,
        search_enabled: false,
    };
    let provider = GeminiProvider::new(config);

    let request = ProviderRequest {
        system_prompt: "You are a helpful assistant.".to_string(),
        messages: vec![],
        tools: Some(vec![ToolDefinition {
            tool_type: "function".to_string(),
            function: FunctionDefinition {
                name: "test_tool".to_string(),
                description: "A test tool".to_string(),
                parameters: j(r#"{ "type": "object", "properties": { "path": { "type": "string", "description": "File path" } }, "required": ["path"], "additionalProperties": false }"#),
            },
        }]),
        tool_choice: None,
        use_response_api: None,
        max_tokens: None,
    };

    let body = v(&provider.build_request_body(&request));
    let tools = body["tools"].as_array().unwrap();
    let func = &tools[0]["functionDeclarations"].as_array().unwrap()[0];
    let params = &func["parameters"];

    // Verify additionalProperties was stripped
    assert!(
        params.get("additionalProperties").is_none(),
        "additionalProperties should be stripped for Gemini"
    );
    // Verify other fields are preserved
    assert_eq!(params["type"], "object");
    assert!(params["properties"].is_object());
    assert_eq!(params["required"], v(&j(r#"["path"]"#)));
}

#[test]
fn test_map_reasoning_effort() {
    assert_eq!(
        map_reasoning_effort_to_thinking_level("low").as_str(),
        "low"
    );
    assert_eq!(
        map_reasoning_effort_to_thinking_level("medium").as_str(),
        "medium"
    );
    assert_eq!(
        map_reasoning_effort_to_thinking_level("high").as_str(),
        "high"
    );
    assert_eq!(
        map_reasoning_effort_to_thinking_level("xhigh").as_str(),
        "high"
    );
    assert_eq!(
        map_reasoning_effort_to_thinking_level("unknown").as_str(),
        "low"
    );
    assert_eq!(
        map_reasoning_effort_to_thinking_level("minimal").as_str(),
        "minimal"
    );
}

#[test]
fn test_get_gemini_model_info() {
    let info_pro = get_gemini_model_info("gemini-3.1-pro-preview");
    assert_eq!(info_pro.context_window, Some(1048576));
    assert_eq!(info_pro.temperature, Some(1000000));
    assert_eq!(
        info_pro
            .thinking_config
            .as_ref()
            .unwrap()
            .gemini_thinking_level,
        Some("high".to_string())
    );

    let info_flash = get_gemini_model_info("gemini-3-flash-preview");
    assert_eq!(info_flash.temperature, Some(1000000));
    // Gemini 3 Flash should default to minimal thinking level
    assert_eq!(
        info_flash
            .thinking_config
            .as_ref()
            .unwrap()
            .gemini_thinking_level,
        Some("minimal".to_string())
    );

    let info_25_pro = get_gemini_model_info("gemini-2.5-pro");
    assert_eq!(
        info_25_pro.thinking_config.as_ref().unwrap().max_budget,
        Some(32767)
    );
}

#[test]
fn test_gemini_model_pricing_gemini_3_1_flash_image() {
    let info = get_gemini_model_info("gemini-3.1-flash-image");
    assert_eq!(info.context_window, Some(128_000));
    assert_eq!(info.input_price, Some(250000));
    assert_eq!(info.output_price, Some(67000));
}

#[test]
fn test_gemini_model_pricing_gemini_3_pro_image() {
    let info = get_gemini_model_info("gemini-3-pro-image");
    assert_eq!(info.context_window, Some(65_000));
    assert_eq!(info.input_price, Some(2000000));
    assert_eq!(info.output_price, Some(134000));
}

#[test]
fn test_gemini_model_pricing_gemini_3_1_flash_lite() {
    let info = get_gemini_model_info("gemini-3.1-flash-lite");
    assert_eq!(info.context_window, Some(1_048_576));
    assert_eq!(info.input_price, Some(250000));
    assert_eq!(info.output_price, Some(1500000));
    assert_eq!(info.cache_reads_price, Some(50000));
    assert_eq!(
        info.thinking_config.as_ref().unwrap().gemini_thinking_level,
        Some("minimal".to_string())
    );
}

#[test]
fn test_gemini_model_pricing_gemini_3_1_pro() {
    let info = get_gemini_model_info("gemini-3.1-pro");
    assert_eq!(info.context_window, Some(1_048_576));
    assert_eq!(info.temperature, Some(1000000));
    assert!(info.tiers.is_some());
    let tiers = info.tiers.unwrap();
    assert_eq!(tiers.len(), 2);
    assert_eq!(tiers[0].input_price, Some(2000000));
    assert_eq!(tiers[0].output_price, Some(12000000));
}

#[test]
fn test_gemini_model_pricing_gemini_3_pro() {
    let info = get_gemini_model_info("gemini-3-pro");
    assert_eq!(info.context_window, Some(1_048_576));
    assert_eq!(info.temperature, Some(1000000));
    assert!(info.tiers.is_some());
    let tiers = info.tiers.unwrap();
    assert_eq!(tiers.len(), 2);
    assert_eq!(tiers[0].input_price, Some(2000000));
    assert_eq!(tiers[0].output_price, Some(12000000));
}

#[test]
fn test_gemini_model_pricing_gemini_3_flash() {
    let info = get_gemini_model_info("gemini-3-flash");
    assert_eq!(info.context_window, Some(1_048_576));
    assert_eq!(info.input_price, Some(500000));
    assert_eq!(info.output_price, Some(3000000));
    assert_eq!(info.cache_reads_price, Some(50000));
    assert_eq!(
        info.thinking_config.as_ref().unwrap().gemini_thinking_level,
        Some("minimal".to_string())
    );
}

#[test]
fn test_gemini_model_pricing_gemini_2_5_pro() {
    let info = get_gemini_model_info("gemini-2.5-pro");
    assert_eq!(info.context_window, Some(1_048_576));
    assert_eq!(info.input_price, Some(2500000));
    assert_eq!(info.output_price, Some(15000000));
    assert_eq!(
        info.thinking_config.as_ref().unwrap().max_budget,
        Some(32767)
    );
}

#[test]
fn test_gemini_model_pricing_gemini_2_5_flash() {
    let info = get_gemini_model_info("gemini-2.5-flash");
    assert_eq!(info.context_window, Some(1_048_576));
    assert_eq!(info.input_price, Some(300000));
    assert_eq!(info.output_price, Some(2500000));
    assert_eq!(
        info.thinking_config.as_ref().unwrap().max_budget,
        Some(24576)
    );
}

#[test]
fn test_gemini_model_pricing_gemini_2_5_flash_lite() {
    let info = get_gemini_model_info("gemini-2.5-flash-lite");
    assert_eq!(info.context_window, Some(1_048_576));
    assert_eq!(info.input_price, Some(100000));
    assert_eq!(info.output_price, Some(400000));
    assert_eq!(
        info.thinking_config.as_ref().unwrap().max_budget,
        Some(24576)
    );
}

#[test]
fn test_gemini_model_ordering_flash_vs_flash_lite() {
    // Regression test: verify "flash-lite" models don't match "flash" pricing
    let flash_lite = get_gemini_model_info("gemini-2.5-flash-lite");
    let flash = get_gemini_model_info("gemini-2.5-flash");

    // flash-lite should have different (lower) pricing than flash
    assert_eq!(flash_lite.input_price, Some(100000));
    assert_eq!(flash_lite.output_price, Some(400000));
    assert_eq!(flash.input_price, Some(300000));
    assert_eq!(flash.output_price, Some(2500000));

    // Verify they are not the same (would indicate ordering bug)
    assert_ne!(flash_lite.input_price, flash.input_price);
    assert_ne!(flash_lite.output_price, flash.output_price);
}

#[test]
fn test_gemini_model_ordering_3_1_flash_lite_vs_3_flash() {
    // Regression test: verify "gemini-3.1-flash-lite" doesn't match "gemini-3-flash"
    let lite = get_gemini_model_info("gemini-3.1-flash-lite");
    let flash = get_gemini_model_info("gemini-3-flash");

    assert_eq!(lite.input_price, Some(250000));
    assert_eq!(lite.output_price, Some(1500000));
    assert_eq!(flash.input_price, Some(500000));
    assert_eq!(flash.output_price, Some(3000000));

    assert_ne!(lite.input_price, flash.input_price);
    assert_ne!(lite.output_price, flash.output_price);
}

#[test]
fn test_gemini_model_ordering_3_1_pro_vs_3_pro() {
    // Regression test: verify "gemini-3.1-pro" doesn't match "gemini-3-pro"
    let pro_3_1 = get_gemini_model_info("gemini-3.1-pro");
    let pro_3 = get_gemini_model_info("gemini-3-pro");

    // Both should have tiers, but verify they're matched correctly
    assert!(pro_3_1.tiers.is_some());
    assert!(pro_3.tiers.is_some());
    // Both should have temperature 1.0
    assert_eq!(pro_3_1.temperature, Some(1000000));
    assert_eq!(pro_3.temperature, Some(1000000));
}

fn run(lines: &[&str], info: Option<sned::providers::ModelInfo>) -> (GeminiStreamState, Vec<ApiStreamChunk>) {
    let mut s = GeminiStreamState::default();
    let mut out: Vec<ApiStreamChunk> = Vec::new();
    for line in lines {
        process_gemini_sse_line(line, &info, &mut s, &mut out);
    }
    (s, out)
}

#[test]
fn parts_become_reasoning_text_and_calls() {
    let (_, out) = run(
        &[r#"data: {"responseId":"r1","candidates":[{"content":{"parts":[{"text":"hm","thought":true,"thoughtSignature":"s1"},{"text":"hi"},{"functionCall":{"name":"f","args":{"a":1}}},{"functionCall":{"name":"g"}}]},"finishReason":"STOP"}]}"#],
        None,
    );
    assert!(matches!(&out[0], ApiStreamChunk::Reasoning(r) if r.reasoning == "hm" && r.signature.as_deref() == Some("s1")));
    assert!(matches!(&out[1], ApiStreamChunk::Text(t) if t.text == "hi" && t.signature.as_deref() == Some("s1")));
    match (&out[2], &out[3]) {
        (ApiStreamChunk::ToolCalls(a), ApiStreamChunk::ToolCalls(b)) => {
            assert_eq!(a.tool_call.call_id.as_deref(), Some("r1-tool-0"));
            assert_eq!(a.tool_call.function.arguments.as_deref(), Some(r#"{"a":1}"#));
            assert_eq!(a.signature.as_deref(), Some("s1"));
            assert_eq!(b.tool_call.call_id.as_deref(), Some("r1-tool-1"));
            assert_eq!(b.tool_call.function.arguments.as_deref(), Some("{}"));
            assert_eq!(b.signature, None);
        }
        other => panic!("expected two calls, got {other:?}"),
    }
    assert_eq!(out.len(), 4);
}

#[test]
fn calls_are_handed_out_once_and_the_rest_at_the_end() {
    let call = r#"data: {"candidates":[{"content":{"parts":[{"functionCall":{"name":"f","id":"c1"}}]}}]}"#;
    let (mut s, mut out) = run(&[call, call], None);
    assert!(out.is_empty());
    finish_gemini_sse_to_chunks(&mut s, &mut out);
    finish_gemini_sse_to_chunks(&mut s, &mut out);
    assert_eq!(out.len(), 1);
}

#[test]
fn usage_is_priced_by_tier() {
    let usage = r#"data: {"usageMetadata":{"promptTokenCount":1000,"candidatesTokenCount":100,"thoughtsTokenCount":50,"cachedContentTokenCount":200}}"#;
    let info = get_gemini_model_info("gemini-3.1-pro");
    let (_, out) = run(&[usage], Some(info));
    match &out[0] {
        ApiStreamChunk::Usage(u) => {
            assert_eq!(u.input_tokens, 800);
            assert_eq!(u.cache_read_tokens, Some(200));
            // 800 * $2 + 150 * $12 + 200 * $0.4, each per million tokens
            assert_eq!(u.total_cost, Some(1_600_000_000 + 1_800_000_000 + 80_000_000));
            assert_eq!(u.id.as_deref(), Some("gemini-response"));
        }
        other => panic!("expected usage, got {other:?}"),
    }
}

#[test]
fn signature_alone_becomes_an_empty_text() {
    let (_, out) = run(
        &[r#"data: {"candidates":[{"content":{"parts":[{"thoughtSignature":"s"}]}}]}"#, "garbage", "data: [DONE]"],
        None,
    );
    assert_eq!(out.len(), 1);
    assert!(matches!(&out[0], ApiStreamChunk::Text(t) if t.text.is_empty() && t.signature.as_deref() == Some("s")));
}

#[test]
fn sources_are_listed_at_the_end() {
    let (mut s, mut out) = run(
        &[r#"data: {"candidates":[{"groundingMetadata":{"groundingChunks":[{"web":{"title":"T","uri":"https://t"}},{"web":{"title":"none"}},{"web":{"uri":"https://u"}}]}}]}"#],
        None,
    );
    finish_gemini_sse_to_chunks(&mut s, &mut out);
    assert!(matches!(&out[0], ApiStreamChunk::Text(t) if t.text == "\n\n**Sources:**\n1. [T](https://t)\n3. [](https://u)\n"));
}

#[test]
fn oversized_arguments_are_cut_and_bytes_become_lines() {
    let big = "x".repeat(200_000);
    let line = format!("data: {{\"candidates\":[{{\"content\":{{\"parts\":[{{\"functionCall\":{{\"name\":\"f\",\"args\":\"{big}\"}}}}]}}}}]}}\n");
    let mut buffer = SseLineBuffer::default();
    let mut s = GeminiStreamState::default();
    let mut out: Vec<ApiStreamChunk> = Vec::new();
    take_gemini_bytes(line.as_bytes(), &mut buffer, &None, &mut s, &mut out);
    assert_eq!(s.calls[0].arguments.len(), 131_072);
    assert_eq!(gemini_stream_error("x"), "Gemini SSE stream error: x");
}

#[test]
fn named_tools_and_budgets_are_sent() {
    let mut info = get_gemini_model_info("gemini-2.5-pro");
    info.max_tokens = Some(100_000);
    let provider = GeminiProvider::new(GeminiConfig {
        api_key: "k".to_string(),
        base_url: None,
        model_id: "gemini-2.5-pro".to_string(),
        model_info: Some(info),
        thinking_budget_tokens: Some(50_000),
        reasoning_effort: None,
        search_enabled: true,
    });
    let request = ProviderRequest {
        system_prompt: String::new(),
        messages: vec![],
        tools: Some(vec![ToolDefinition {
            tool_type: "function".to_string(),
            function: FunctionDefinition {
                name: "f".to_string(),
                description: "d".to_string(),
                parameters: j(r#"{"properties":{"a":{"type":"object","additionalProperties":false}}}"#),
            },
        }]),
        tool_choice: Some(ToolChoice::Named("f".to_string())),
        use_response_api: None,
        max_tokens: None,
    };
    let body = v(&provider.build_request_body(&request));
    assert_eq!(body["generationConfig"]["maxOutputTokens"], 32_768);
    assert_eq!(body["generationConfig"]["temperature"], 0.7);
    assert_eq!(body["generationConfig"]["topP"], 0.8);
    assert_eq!(body["generationConfig"]["thinkingConfig"]["thinkingBudget"], 32_767);
    assert_eq!(body["generationConfig"]["includeServerSideToolInvocations"], true);
    assert_eq!(body["toolConfig"]["functionCallingConfig"]["mode"], "ANY");
    assert_eq!(body["toolConfig"]["functionCallingConfig"]["allowedFunctionNames"][0], "f");
    let parameters = &body["tools"][0]["functionDeclarations"][0]["parameters"];
    assert!(parameters["properties"]["a"].get("additionalProperties").is_none());
    assert!(body.get("systemInstruction").is_none());
    assert_eq!(
        provider.stream_url(),
        "https://generativelanguage.googleapis.com/v1beta/models/gemini-2.5-pro:streamGenerateContent?alt=sse"
    );
    assert_eq!(provider.build_headers()[0], ("x-goog-api-key".to_string(), "k".to_string()));
}

#[test]
fn level_names_round_trip() {
    for level in [
        GeminiThinkingLevel::Minimal,
        GeminiThinkingLevel::Low,
        GeminiThinkingLevel::Medium,
        GeminiThinkingLevel::High,
    ] {
        assert_eq!(thinking_level_of(level.as_str()), level);
        assert_eq!(map_reasoning_effort_to_thinking_level(&level.as_str().to_uppercase()), level);
    }
}

#[test]
fn no_call_is_sent_twice_and_none_before_the_end() {
    let call = r#"data: {"candidates":[{"content":{"parts":[{"functionCall":{"id":"a","name":"f","args":{}}}]}}]}"#;
    let stop = r#"data: {"candidates":[{"content":{"parts":[{"functionCall":{"id":"a","name":"f","args":{}}},{"functionCall":{"id":"b","name":"g","args":{}}}]},"finishReason":"STOP"}]}"#;
    let sent = |out: &Vec<ApiStreamChunk>| -> Vec<String> {
        out.iter()
            .filter_map(|c| match c {
                ApiStreamChunk::ToolCalls(t) => t.tool_call.call_id.clone(),
                _ => None,
            })
            .collect()
    };
    let (_, out) = run(&[call, call], None);
    assert!(sent(&out).is_empty());
    let (mut s, mut out) = run(&[call, stop, stop, call], None);
    assert_eq!(sent(&out), ["a", "b"]);
    finish_gemini_sse_to_chunks(&mut s, &mut out);
    assert_eq!(sent(&out), ["a", "b"]);
}
