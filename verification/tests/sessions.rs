use sned::providers::anthropic::{AnthropicConfig, AnthropicProvider};
use sned::providers::minimax::{MinimaxConfig, MinimaxProvider};
use sned::providers::openai::{
    NextStep, OpenAiConfig, OpenAiEndpointKind, OpenAiProvider, OpenAiSession, ResponseKind,
    StreamEvent,
};
use sned::providers::openai_completion::decode_openai_body;
use sned::providers::sessions::{AnthropicSession, GeminiSession, MinimaxSession, TransferEvent};
use sned::providers::{ApiStreamChunk, ModelFamily, SseLineBuffer};

fn bytes(text: &str) -> TransferEvent {
    TransferEvent::Bytes(text.as_bytes().to_vec())
}

fn shown(chunks: &[ApiStreamChunk]) -> String {
    chunks
        .iter()
        .filter_map(|chunk| match chunk {
            ApiStreamChunk::Text(t) => Some(t.text.as_str()),
            _ => None,
        })
        .collect()
}

#[test]
fn cuts_of_an_anthropic_response_do_not_matter() {
    let line = "data: {\"type\":\"content_block_delta\",\"delta\":{\"type\":\"text_delta\",\"text\":\"hello\"}}\n";
    let mut expected = Vec::new();
    assert_eq!(AnthropicSession::new().step(&bytes(line), &mut expected), NextStep::Continue);
    assert_eq!(shown(&expected), "hello");
    for cut in 0..=line.len() {
        let mut session = AnthropicSession::new();
        let mut out = Vec::new();
        session.step(&bytes(&line[..cut]), &mut out);
        session.step(&bytes(&line[cut..]), &mut out);
        assert_eq!(out, expected);
    }
}

#[test]
fn failed_anthropic_transfers_still_end() {
    let line = "data: {\"type\":\"content_block_delta\",\"delta\":{\"type\":\"text_delta\",\"text\":\"hello\"}}";
    let mut session = AnthropicSession::new();
    let mut out = Vec::new();
    session.step(&bytes(line), &mut out);
    assert!(out.is_empty());
    let failed = TransferEvent::Failed("connection reset".to_string());
    assert_eq!(session.step(&failed, &mut out), NextStep::Finish);
    session.finish(&mut out);
    assert_eq!(
        out[0],
        ApiStreamChunk::Error(
            "Anthropic SSE stream error: connection reset (retryable)".to_string()
        )
    );
    assert_eq!(shown(&out), "hello");
    assert_eq!(session.step(&TransferEvent::Ended, &mut out), NextStep::Finish);
    assert_eq!(session.step(&TransferEvent::Closed, &mut out), NextStep::Stop);
}

#[test]
fn cuts_of_a_gemini_response_do_not_matter() {
    let line = "data: {\"responseId\":\"r\",\"candidates\":[{\"content\":{\"parts\":[{\"text\":\"hello\"}]}}]}\r\n";
    let mut expected = Vec::new();
    GeminiSession::new().step(&bytes(line), &None, &mut expected);
    assert_eq!(shown(&expected), "hello");
    for cut in 0..=line.len() {
        let mut session = GeminiSession::new();
        let mut out = Vec::new();
        session.step(&bytes(&line[..cut]), &None, &mut out);
        session.step(&bytes(&line[cut..]), &None, &mut out);
        assert_eq!(out, expected);
    }
}

#[test]
fn failed_gemini_and_minimax_transfers_stop() {
    let failed = TransferEvent::Failed("bad".to_string());
    let mut out = Vec::new();
    assert_eq!(GeminiSession::new().step(&failed, &None, &mut out), NextStep::Stop);
    assert_eq!(MinimaxSession::new().step(&failed, &mut out), NextStep::Stop);
    assert_eq!(
        out,
        vec![
            ApiStreamChunk::Error("Gemini SSE stream error: bad".to_string()),
            ApiStreamChunk::Error("MiniMax SSE stream error: bad".to_string()),
        ]
    );
    assert_eq!(GeminiSession::new().step(&TransferEvent::Ended, &None, &mut out), NextStep::Finish);
    assert_eq!(MinimaxSession::new().step(&TransferEvent::Ended, &mut out), NextStep::Finish);
    assert_eq!(GeminiSession::new().step(&TransferEvent::Closed, &None, &mut out), NextStep::Stop);
    assert_eq!(MinimaxSession::new().step(&TransferEvent::Closed, &mut out), NextStep::Stop);
    assert_eq!(out.len(), 2);
}

#[test]
fn gemini_leaves_an_unfinished_line_out() {
    let line = "data: {\"responseId\":\"r\",\"candidates\":[{\"content\":{\"parts\":[{\"text\":\"hello\"}]}}]}";
    let mut session = GeminiSession::new();
    let mut out = Vec::new();
    session.step(&bytes(line), &None, &mut out);
    session.finish(&mut out);
    assert!(out.is_empty());
}

#[test]
fn minimax_ends_with_the_unfinished_line() {
    let line = "data: {\"id\":\"e\",\"choices\":[{\"index\":0,\"delta\":{\"content\":\"no end\"}}]}";
    for cut in 0..=line.len() {
        let mut session = MinimaxSession::new();
        let mut out = Vec::new();
        assert_eq!(session.step(&bytes(&line[..cut]), &mut out), NextStep::Continue);
        assert_eq!(session.step(&bytes(&line[cut..]), &mut out), NextStep::Continue);
        assert!(out.is_empty());
        session.finish(&mut out);
        assert_eq!(shown(&out), "no end");
    }
}

fn open_ai(stream: bool) -> OpenAiProvider {
    OpenAiProvider::new(OpenAiConfig {
        api_key: "test-key".to_string(),
        base_url: None,
        model_id: "gpt-4".to_string(),
        model_info: None,
        reasoning_effort: None,
        extra_body: None,
        custom_headers: None,
        endpoint_kind: OpenAiEndpointKind::Official,
        stream,
        provider_name: None,
    })
}

#[test]
fn responses_are_told_apart_by_status_and_contents() {
    let json = Some("application/json".to_string());
    let events = Some("Text/Event-Stream; charset=utf-8".to_string());
    assert_eq!(open_ai(false).response_kind(199, &json), ResponseKind::Failure);
    assert_eq!(open_ai(true).response_kind(300, &events), ResponseKind::Failure);
    assert_eq!(open_ai(false).response_kind(200, &json), ResponseKind::Whole);
    assert_eq!(open_ai(false).response_kind(299, &None), ResponseKind::Whole);
    assert_eq!(open_ai(false).response_kind(200, &events), ResponseKind::Events);
    assert_eq!(open_ai(true).response_kind(200, &json), ResponseKind::Events);
}

#[test]
fn requests_go_to_the_endpoint_of_the_provider() {
    assert_eq!(
        open_ai(true).completions_url(),
        "https://api.openai.com/v1/chat/completions"
    );
    let minimax = MinimaxProvider::new(MinimaxConfig {
        api_key: "test-key".to_string(),
        api_line: Some("china".to_string()),
        model_id: "MiniMax-M2.7".to_string(),
        model_info: None,
        thinking_budget_tokens: None,
    });
    assert_eq!(minimax.completions_url(), "https://api.minimaxi.com/v1/chat/completions");
    let anthropic = AnthropicProvider::new(AnthropicConfig {
        api_key: "test-key".to_string(),
        base_url: Some(String::new()),
        model_id: "acme-sonnet-4-6".to_string(),
        model_info: None,
        thinking_budget_tokens: None,
        family: ModelFamily { word: "acme".to_string(), title: "Acme".to_string() },
    });
    assert_eq!(anthropic.messages_url(), "https://api.anthropic.com/v1/messages");
}

#[test]
fn cuts_around_an_oversized_line_do_not_matter() {
    let text = "\n\nab\n0123456789";
    let run = |pieces: &[&str]| {
        let mut session = MinimaxSession::new();
        session.buffer = SseLineBuffer::with_max_line_length(8);
        let mut out = Vec::new();
        for piece in pieces {
            session.step(&bytes(piece), &mut out);
        }
        out
    };
    let expected = run(&[text]);
    assert_eq!(expected.len(), 2);
    assert_eq!(
        expected[1],
        ApiStreamChunk::Error("SSE line exceeded maximum length of 8 bytes".to_string())
    );
    for cut in 0..=text.len() {
        assert_eq!(run(&[&text[..cut], &text[cut..]]), expected);
    }
}

fn listed(chunks: &[ApiStreamChunk]) -> Vec<String> {
    chunks.iter().map(|chunk| format!("{chunk:?}")).collect()
}

/// The chunks of two lines are the same, and there are some.
fn same_chunks(run: impl Fn(&str) -> Vec<ApiStreamChunk>, objects: &str, lists: &str) {
    let expected = run(objects);
    assert!(!expected.is_empty());
    assert_eq!(listed(&run(lists)), listed(&expected), "{lists}");
}

#[test]
fn anthropic_records_may_be_lists() {
    let run = |payload: &str| {
        let mut out = Vec::new();
        AnthropicSession::new().step(&bytes(&format!("data: {payload}\n")), &mut out);
        out
    };
    same_chunks(
        run,
        r#"{"type":"message_start","message":{"usage":{"input_tokens":1,"output_tokens":2,"cache_creation_input_tokens":3}}}"#,
        r#"["message_start",[[1,2,3,null]]]"#,
    );
    same_chunks(
        run,
        r#"{"type":"message_delta","delta":{"stop_reason":"end"},"usage":{"output_tokens":2}}"#,
        r#"["message_delta",["end"],[0,2,null,null]]"#,
    );
    same_chunks(
        run,
        r#"{"type":"content_block_start","content_block":{"type":"tool_use","id":"a","name":"f"}}"#,
        r#"{"type":"content_block_start","content_block":[2,"a","f"]}"#,
    );
    same_chunks(
        run,
        r#"{"type":"content_block_start","content_block":{"type":"thinking","thinking":"t"}}"#,
        r#"["content_block_start",["thinking","t",null]]"#,
    );
    same_chunks(
        run,
        r#"{"type":"content_block_delta","delta":{"type":"text_delta","text":"t"}}"#,
        r#"{"type":"content_block_delta","delta":{"type":2,"text":"t"}}"#,
    );
    same_chunks(
        run,
        r#"{"type":"error","error":{"type":"e","message":"m"}}"#,
        r#"["error",["e","m"]]"#,
    );
    for bad in [
        r#"["error",["e"]]"#,
        r#"["error",["e","m"],1]"#,
        r#"[]"#,
        r#"[7,["e","m"]]"#,
        r#"{"type":7,"error":["e","m"]}"#,
        r#"{"type":"content_block_delta","delta":[4,"t"]}"#,
        r#"["message_start",[[1,2,3]]]"#,
    ] {
        assert!(run(bad).is_empty(), "{bad}");
    }
}

#[test]
fn gemini_records_may_be_lists() {
    let run = |payload: &str| {
        let mut out = Vec::new();
        GeminiSession::new().step(&bytes(&format!("data: {payload}\n")), &None, &mut out);
        out
    };
    same_chunks(
        run,
        r#"{"candidates":[{"content":{"parts":[{"text":"t"},{"functionCall":{"name":"f","args":{},"id":"a"}}]},"finishReason":"STOP"}],"usageMetadata":{"promptTokenCount":1},"responseId":"r"}"#,
        r#"[[[[[["t"],[null,null,null,["f",{},"a"]]]],"STOP"]],[1],"r"]"#,
    );
    same_chunks(run, r#"{"candidates":[{"content":{"parts":[{"text":"t"}]}}]}"#, r#"[[[[[["t"]]]]]]"#);
    assert!(run(r#"[[[[[["t"]]]]],null,null,1]"#).is_empty());
}

#[test]
fn minimax_records_may_be_lists() {
    let run = |payload: &str| {
        let mut out = Vec::new();
        let mut session = MinimaxSession::new();
        session.step(&bytes(&format!("data: {payload}\n")), &mut out);
        session.finish(&mut out);
        out
    };
    same_chunks(
        run,
        r#"{"id":"e","choices":[{"delta":{"content":"c","tool_calls":[{"index":0,"id":"a","function":{"name":"f","arguments":"{}"}}],"reasoning_details":[{"text":"r"}]},"finish_reason":"tool_calls"}],"usage":{"prompt_tokens":1,"completion_tokens":2,"prompt_tokens_details":{"cached_tokens":1}}}"#,
        r#"["e",[[["c",[[0,"a",null,["f","{}"]]],null,[["r"]]],"tool_calls"]],[1,2,[1],null]]"#,
    );
    let refused = |payload: &str| matches!(run(payload).as_slice(), [ApiStreamChunk::Error(_)]);
    assert!(refused(r#"["e",[]]"#));
    assert!(refused(r#"["e",[[["c",[]],null]],null]"#));
    assert!(refused(r#"["e",[[["c",[],null],null,0,1]],null]"#));
}

#[test]
fn open_ai_records_may_be_lists() {
    let run = |payload: &str| {
        let mut out = Vec::new();
        let mut session = OpenAiSession::new();
        let event = StreamEvent::Bytes(format!("data: {payload}\n").into_bytes());
        session.step(&event, 0, 0, &vec![], &None, usize::MAX, &mut out);
        session.finish(&None, usize::MAX, &mut out);
        out
    };
    same_chunks(
        run,
        r#"{"id":"e","choices":[{"delta":{"content":"c","tool_calls":[{"index":0,"id":"a","function":{"name":"f","arguments":"{}"}}]},"finish_reason":"tool_calls"}],"usage":{"prompt_tokens":3,"completion_tokens":2,"prompt_tokens_details":{"cached_tokens":1},"completion_tokens_details":{"reasoning_tokens":1}}}"#,
        r#"["e",[[["c",null,[[0,"a",["f","{}"]]],null],"tool_calls"]],[3,2,[1],[1],null]]"#,
    );
    assert_eq!(shown(&run(r#"["e",[[["c",null,null,null],null]],null]"#)), "c");
    assert!(shown(&run(r#"["e",[[["c",null,null],null]],null]"#)).is_empty());
    assert!(shown(&run(r#"["e",[[["c",null,null,null],null]]]"#)).is_empty());
}

#[test]
fn completions_may_be_lists() {
    let objects = br#"{"id":"e","choices":[{"message":{"content":"c","tool_calls":[{"id":"a","function":{"name":"f","arguments":"{}"}}]},"finish_reason":"stop"}],"usage":{"prompt_tokens":3,"completion_tokens":2}}"#;
    let lists = br#"["e",[[["c",null,null,[["a",["f","{}"]]]],"stop"]],[3,2,null,null,null]]"#;
    let expected = decode_openai_body(objects, "", &None).unwrap();
    assert!(!expected.is_empty());
    assert_eq!(listed(&decode_openai_body(lists, "", &None).unwrap()), listed(&expected));
    assert!(decode_openai_body(br#"["e",[]]"#, "why", &None).is_err());
}
