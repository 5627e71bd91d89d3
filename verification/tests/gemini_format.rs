//! Conversations as Gemini takes them.

use sned::json::Json;
use sned::providers::gemini_format::{convert_to_gemini_contents, image_type_of, make_contents_json};
use sned::providers::{
    AssistantContentBlock, DocumentContentBlock, DocumentSource, ImageContentBlock, ImageSource,
    MessageContent, MessageRole, SharedContentFields, StorageMessage, TextContentBlock,
    ThinkingBlock, ToolResultBlock, ToolResultContent, ToolResultContentBlock, ToolUseBlock,
    UserContentBlock,
};

/// The JSON that a text holds.
fn j(text: &str) -> Json {
    sned::json::from_text(text).unwrap()
}

#[test]
fn test_convert_simple_text_messages() {
    let messages = vec![
        StorageMessage {
            id: None,
            role: MessageRole::User,
            content: MessageContent::Text("Hello".to_string()),
            model_info: None,
            metrics: None,
            ts: None,
        },
        StorageMessage {
            id: None,
            role: MessageRole::Assistant,
            content: MessageContent::Text("Hi there!".to_string()),
            model_info: None,
            metrics: None,
            ts: None,
        },
    ];

    let gemini = convert_to_gemini_contents(&messages);
    assert_eq!(gemini.len(), 2);
    assert_eq!(gemini[0].role, "user");
    assert_eq!(gemini[1].role, "model");
    assert_eq!(gemini[0].parts[0].text, Some("Hello".to_string()));
    assert_eq!(gemini[1].parts[0].text, Some("Hi there!".to_string()));
}

#[test]
fn test_convert_tool_use_and_result() {
    let tool_use = AssistantContentBlock::ToolUse(ToolUseBlock {
        id: "call_abc123".to_string(),
        name: "read_file".to_string(),
        input: j(r#"{"path": "/test.txt"}"#),
        shared: SharedContentFields {
            call_id: None,
            signature: Some("sig_123".to_string()),
        },
        reasoning_details: None,
    });

    let tool_result = UserContentBlock::ToolResult(ToolResultBlock {
        tool_use_id: "call_abc123".to_string(),
        content: ToolResultContent::Text("file contents".to_string()),
        shared: SharedContentFields {
            call_id: None,
            signature: Some("sig_456".to_string()),
        },
    });

    let messages = vec![
        StorageMessage {
            id: None,
            role: MessageRole::Assistant,
            content: MessageContent::AssistantBlocks(vec![tool_use]),
            model_info: None,
            metrics: None,
            ts: None,
        },
        StorageMessage {
            id: None,
            role: MessageRole::User,
            content: MessageContent::UserBlocks(vec![tool_result]),
            model_info: None,
            metrics: None,
            ts: None,
        },
    ];

    let gemini = convert_to_gemini_contents(&messages);
    assert_eq!(gemini.len(), 2);

    // Check tool use
    let tool_call = &gemini[0].parts[0].function_call.as_ref().unwrap();
    assert_eq!(tool_call.name, "read_file");
    assert_eq!(tool_call.id, Some("call_abc123".to_string()));
    assert_eq!(
        gemini[0].parts[0].thought_signature,
        Some("sig_123".to_string())
    );

    // Check tool result
    let tool_response = &gemini[1].parts[0].function_response.as_ref().unwrap();
    assert_eq!(tool_response.name, "read_file");
    assert_eq!(tool_response.id, Some("call_abc123".to_string()));
    assert_eq!(
        tool_response.response,
        j(r#"{"result": "file contents"}"#)
    );
}

#[test]
fn test_convert_thinking_block() {
    let thinking = AssistantContentBlock::Thinking(ThinkingBlock {
        thinking: "Let me think about this...".to_string(),
        signature: "think_sig_789".to_string(),
        shared: SharedContentFields {
            call_id: None,
            signature: None,
        },
        summary: None,
    });

    let messages = vec![StorageMessage {
        id: None,
        role: MessageRole::Assistant,
        content: MessageContent::AssistantBlocks(vec![thinking]),
        model_info: None,
        metrics: None,
        ts: None,
    }];

    let gemini = convert_to_gemini_contents(&messages);
    assert_eq!(gemini.len(), 1);
    let part = &gemini[0].parts[0];
    assert_eq!(part.thought, Some(true));
    assert_eq!(part.text, Some("Let me think about this...".to_string()));
    assert_eq!(part.thought_signature, Some("think_sig_789".to_string()));
}

#[test]
fn test_signature_carry_forward() {
    let blocks = vec![
        AssistantContentBlock::Text(TextContentBlock {
            text: "First".to_string(),
            shared: SharedContentFields {
                call_id: None,
                signature: Some("sig_first".to_string()),
            },
            reasoning_details: None,
        }),
        AssistantContentBlock::Text(TextContentBlock {
            text: "Second".to_string(),
            shared: SharedContentFields {
                call_id: None,
                signature: None,
            },
            reasoning_details: None,
        }),
    ];

    let messages = vec![StorageMessage {
        id: None,
        role: MessageRole::Assistant,
        content: MessageContent::AssistantBlocks(blocks),
        model_info: None,
        metrics: None,
        ts: None,
    }];

    let gemini = convert_to_gemini_contents(&messages);
    assert_eq!(gemini[0].parts.len(), 2);
    assert_eq!(
        gemini[0].parts[0].thought_signature,
        Some("sig_first".to_string())
    );
    // Second part should carry forward the signature
    assert_eq!(
        gemini[0].parts[1].thought_signature,
        Some("sig_first".to_string())
    );
}

#[test]
fn test_tool_use_with_thought_signature() {
    // Test that tool use blocks preserve thought signatures
    // Critical for Gemini 3 function calling validation
    let tool_use = AssistantContentBlock::ToolUse(ToolUseBlock {
        id: "call_abc123".to_string(),
        name: "check_flight".to_string(),
        input: j(r#"{"flight_number": "AA100"}"#),
        shared: SharedContentFields {
            call_id: None,
            signature: Some("sig_flight_check".to_string()),
        },
        reasoning_details: None,
    });

    let messages = vec![StorageMessage {
        id: None,
        role: MessageRole::Assistant,
        content: MessageContent::AssistantBlocks(vec![tool_use]),
        model_info: None,
        metrics: None,
        ts: None,
    }];

    let gemini = convert_to_gemini_contents(&messages);
    assert_eq!(gemini.len(), 1);
    assert_eq!(gemini[0].role, "model");

    let part = &gemini[0].parts[0];
    assert!(part.function_call.is_some());
    let fc = part.function_call.as_ref().unwrap();
    assert_eq!(fc.name, "check_flight");
    assert_eq!(fc.id, Some("call_abc123".to_string()));

    // Critical: thought signature must be preserved for Gemini 3 validation
    assert_eq!(part.thought_signature, Some("sig_flight_check".to_string()));
}

#[test]
fn test_parallel_tool_calls_signature_handling() {
    // Test parallel function calls - only first FC has signature
    // Per Gemini 3 docs: "thought_signature is attached only to the first functionCall"
    let tool_use_1 = AssistantContentBlock::ToolUse(ToolUseBlock {
        id: "call_001".to_string(),
        name: "check_flight".to_string(),
        input: j(r#"{"flight_number": "AA100"}"#),
        shared: SharedContentFields {
            call_id: None,
            signature: Some("sig_first".to_string()),
        },
        reasoning_details: None,
    });

    let tool_use_2 = AssistantContentBlock::ToolUse(ToolUseBlock {
        id: "call_002".to_string(),
        name: "book_taxi".to_string(),
        input: j(r#"{"pickup": "airport"}"#),
        shared: SharedContentFields {
            call_id: None,
            signature: None, // Second FC has no signature
        },
        reasoning_details: None,
    });

    let messages = vec![StorageMessage {
        id: None,
        role: MessageRole::Assistant,
        content: MessageContent::AssistantBlocks(vec![tool_use_1, tool_use_2]),
        model_info: None,
        metrics: None,
        ts: None,
    }];

    let gemini = convert_to_gemini_contents(&messages);
    assert_eq!(gemini.len(), 1);
    assert_eq!(gemini[0].parts.len(), 2);

    // First FC must have signature
    assert_eq!(
        gemini[0].parts[0].thought_signature,
        Some("sig_first".to_string())
    );
    assert_eq!(
        gemini[0].parts[0].function_call.as_ref().unwrap().name,
        "check_flight"
    );

    // Second FC must NOT have signature (parallel FCs don't inherit)
    assert_eq!(gemini[0].parts[1].thought_signature, None);
    assert_eq!(
        gemini[0].parts[1].function_call.as_ref().unwrap().name,
        "book_taxi"
    );
}

#[test]
fn test_tool_response_no_signature() {
    // Tool responses (functionResponse) should NOT have signatures
    // Signatures are only on functionCall from the model
    let tool_result = UserContentBlock::ToolResult(ToolResultBlock {
        tool_use_id: "call_abc123".to_string(),
        content: ToolResultContent::Text("Flight AA100 is delayed".to_string()),
        shared: SharedContentFields {
            call_id: None,
            signature: None, // Tool results don't have signatures
        },
    });

    let messages = vec![StorageMessage {
        id: None,
        role: MessageRole::User,
        content: MessageContent::UserBlocks(vec![tool_result]),
        model_info: None,
        metrics: None,
        ts: None,
    }];

    let gemini = convert_to_gemini_contents(&messages);
    assert_eq!(gemini.len(), 1);
    assert_eq!(gemini[0].role, "user");

    let part = &gemini[0].parts[0];
    assert!(part.function_response.is_some());
    // Tool response should not have thought_signature
    assert_eq!(part.thought_signature, None);
}

#[test]
fn test_thought_signature_round_trip() {
    // Full round-trip: thought → tool_use → tool_result → next turn
    // Per Gemini 3 docs, thought_signature must be preserved on functionCall,
    // must NOT appear on functionResponse, and must survive across turns.
    let thinking = AssistantContentBlock::Thinking(ThinkingBlock {
        thinking: "I need to check the weather.".to_string(),
        signature: "think_sig_round_trip".to_string(),
        shared: SharedContentFields {
            call_id: None,
            signature: None,
        },
        summary: None,
    });

    let tool_use = AssistantContentBlock::ToolUse(ToolUseBlock {
        id: "call_weather_001".to_string(),
        name: "get_weather".to_string(),
        input: j(r#"{"city": "Paris"}"#),
        shared: SharedContentFields {
            call_id: None,
            signature: Some("think_sig_round_trip".to_string()),
        },
        reasoning_details: None,
    });

    let tool_result = UserContentBlock::ToolResult(ToolResultBlock {
        tool_use_id: "call_weather_001".to_string(),
        content: ToolResultContent::Text("Sunny, 22C".to_string()),
        shared: SharedContentFields {
            call_id: None,
            signature: Some("should_be_ignored".to_string()),
        },
    });

    let next_user_msg = UserContentBlock::Text(TextContentBlock {
        text: "Thanks!".to_string(),
        shared: SharedContentFields {
            call_id: None,
            signature: None,
        },
        reasoning_details: None,
    });

    let messages = vec![
        StorageMessage {
            id: None,
            role: MessageRole::Assistant,
            content: MessageContent::AssistantBlocks(vec![thinking, tool_use]),
            model_info: None,
            metrics: None,
            ts: None,
        },
        StorageMessage {
            id: None,
            role: MessageRole::User,
            content: MessageContent::UserBlocks(vec![tool_result]),
            model_info: None,
            metrics: None,
            ts: None,
        },
        StorageMessage {
            id: None,
            role: MessageRole::User,
            content: MessageContent::UserBlocks(vec![next_user_msg]),
            model_info: None,
            metrics: None,
            ts: None,
        },
    ];

    let gemini = convert_to_gemini_contents(&messages);
    assert_eq!(gemini.len(), 3);

    // Turn 1: Assistant — thinking + functionCall
    let turn1 = &gemini[0];
    assert_eq!(turn1.role, "model");
    assert_eq!(turn1.parts.len(), 2);

    // Thinking part
    let think_part = &turn1.parts[0];
    assert_eq!(think_part.thought, Some(true));
    assert_eq!(
        think_part.thought_signature,
        Some("think_sig_round_trip".to_string())
    );

    // FunctionCall part — must have signature
    let fc_part = &turn1.parts[1];
    assert!(fc_part.function_call.is_some());
    assert_eq!(
        fc_part.thought_signature,
        Some("think_sig_round_trip".to_string())
    );
    let fc = fc_part.function_call.as_ref().unwrap();
    assert_eq!(fc.name, "get_weather");
    assert_eq!(fc.id, Some("call_weather_001".to_string()));

    // Turn 2: User — functionResponse — must NOT have thought_signature
    let turn2 = &gemini[1];
    assert_eq!(turn2.role, "user");
    let fr_part = &turn2.parts[0];
    assert!(fr_part.function_response.is_some());
    assert_eq!(
        fr_part.thought_signature, None,
        "functionResponse must NEVER have thought_signature"
    );
    let fr = fr_part.function_response.as_ref().unwrap();
    assert_eq!(fr.id, Some("call_weather_001".to_string()));
    assert_eq!(fr.name, "get_weather");

    // Turn 3: User — plain text
    let turn3 = &gemini[2];
    assert_eq!(turn3.role, "user");
    assert_eq!(turn3.parts[0].text, Some("Thanks!".to_string()));
}

#[test]
fn test_tool_response_signature_always_none_even_when_shared_has_signature() {
    // Regression test: the storage layer may store signatures on ToolResult,
    // but the Gemini functionResponse must NEVER include them.
    let tool_result = UserContentBlock::ToolResult(ToolResultBlock {
        tool_use_id: "call_abc123".to_string(),
        content: ToolResultContent::Text("result".to_string()),
        shared: SharedContentFields {
            call_id: None,
            signature: Some("leaked_signature".to_string()),
        },
    });

    let messages = vec![StorageMessage {
        id: None,
        role: MessageRole::User,
        content: MessageContent::UserBlocks(vec![tool_result]),
        model_info: None,
        metrics: None,
        ts: None,
    }];

    let gemini = convert_to_gemini_contents(&messages);
    let part = &gemini[0].parts[0];
    assert!(
        part.function_response.is_some(),
        "Should have functionResponse"
    );
    assert_eq!(
        part.thought_signature, None,
        "thought_signature must be None on functionResponse even when shared.signature is Some"
    );
}

fn plain() -> SharedContentFields {
    SharedContentFields { call_id: None, signature: None }
}

#[test]
fn media_and_documents_become_parts() {
    let blocks = vec![
        UserContentBlock::Image(ImageContentBlock {
            source: ImageSource::Url { url: "https://x/a.webp".to_string() },
            shared: plain(),
        }),
        UserContentBlock::Image(ImageContentBlock {
            source: ImageSource::Base64 { media_type: "image/png".to_string(), data: "AA".to_string() },
            shared: plain(),
        }),
        UserContentBlock::Document(DocumentContentBlock {
            source: DocumentSource::Url { url: "https://x/d".to_string() },
            shared: plain(),
        }),
        UserContentBlock::ToolResult(ToolResultBlock {
            tool_use_id: "unknown".to_string(),
            content: ToolResultContent::Blocks(vec![
                ToolResultContentBlock::Text { text: "a".to_string() },
                ToolResultContentBlock::Image {
                    source: ImageSource::Url { url: "u".to_string() },
                },
                ToolResultContentBlock::Text { text: "b".to_string() },
            ]),
            shared: plain(),
        }),
    ];
    let contents = convert_to_gemini_contents(&vec![StorageMessage {
        id: None,
        role: MessageRole::User,
        content: MessageContent::UserBlocks(blocks),
        model_info: None,
        metrics: None,
        ts: None,
    }]);
    let want = r#"[{"role":"user","parts":[
        {"fileData":{"fileUri":"https://x/a.webp","mimeType":"image/webp"}},
        {"inlineData":{"mimeType":"image/png","data":"AA"}},
        {"text":"[Document: https://x/d]"},
        {"functionResponse":{"name":"unknown","response":{"result":"a\nb"},"id":"unknown"}}]}]"#;
    let json = make_contents_json(&contents);
    assert_eq!(sorted(&json), sorted(&j(want)));
    assert_eq!(image_type_of("x.gif"), "image/gif");
    assert_eq!(image_type_of("x.bin"), "image/jpeg");
}

/// The text of a value with the members of its objects in order.
fn sorted(json: &Json) -> String {
    match json {
        Json::Arr(a) => format!("[{}]", a.iter().map(sorted).collect::<Vec<_>>().join(",")),
        Json::Obj(m) => {
            let mut all: Vec<String> = m.iter().map(|(k, x)| format!("{k}:{}", sorted(x))).collect();
            all.sort();
            format!("{{{}}}", all.join(","))
        }
        other => format!("{other:?}"),
    }
}
