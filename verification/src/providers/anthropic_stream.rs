//! Assembly of an Anthropic response.

use crate::fields;
use crate::json;
use crate::json::{Json, Tree};
use crate::providers::minimax_stream;
use crate::providers::sse;
use crate::providers::sse::{LineState, SseLineBuffer};
use crate::providers::stream_events;
use crate::providers::tool_args;
use crate::providers::types;
use crate::providers::types::{
    ApiStreamChunk, ApiStreamReasoningChunk, ApiStreamUsageChunk, Chunk, Usage,
};
use crate::text;
use vstd::prelude::*;

verus! {

// ---------------------------------------------------------------------------
// Events
// ---------------------------------------------------------------------------

/// The token counts of an event.
#[derive(Debug, Clone, Copy)]
pub struct AnthropicUsage {
    pub input_tokens: u32,
    pub output_tokens: u32,
    pub cache_creation_input_tokens: Option<u32>,
    pub cache_read_input_tokens: Option<u32>,
}

/// A block of content as it begins.
#[derive(Debug)]
pub enum AnthropicContentBlock {
    Thinking { thinking: String, signature: Option<String> },
    RedactedThinking { data: String },
    ToolUse { id: String, name: String },
    Text { text: String },
}

/// What is added to a block of content.
#[derive(Debug)]
pub enum AnthropicContentDelta {
    ThinkingDelta { thinking: String },
    SignatureDelta { signature: String },
    TextDelta { text: String },
    InputJsonDelta { partial_json: String },
}

/// An event of an Anthropic response.
#[derive(Debug)]
pub enum AnthropicStreamEvent {
    MessageStart { usage: AnthropicUsage },
    MessageDelta { stop_reason: Option<String>, usage: AnthropicUsage },
    MessageStop,
    ContentBlockStart { content_block: AnthropicContentBlock },
    ContentBlockDelta { delta: AnthropicContentDelta },
    ContentBlockStop,
    Ping,
    Error { error_type: String, message: String },
}

/// The mathematical value of a block of content.
pub enum Block {
    Thinking(Seq<char>, Option<Seq<char>>),
    Redacted(Seq<char>),
    ToolUse(Seq<char>, Seq<char>),
    Text(Seq<char>),
}

/// The mathematical value of what is added to a block.
pub enum Delta {
    Thinking(Seq<char>),
    Signature(Seq<char>),
    Text(Seq<char>),
    Json(Seq<char>),
}

/// The mathematical value of an event.
pub enum Event {
    Start(AnthropicUsage),
    MessageDelta(Option<Seq<char>>, AnthropicUsage),
    Stop,
    BlockStart(Block),
    BlockDelta(Delta),
    BlockStop,
    Ping,
    Error(Seq<char>, Seq<char>),
}

impl View for AnthropicContentBlock {
    type V = Block;

    open spec fn view(&self) -> Block {
        match *self {
            AnthropicContentBlock::Thinking { thinking, signature } => Block::Thinking(
                thinking@,
                text::opt(signature),
            ),
            AnthropicContentBlock::RedactedThinking { data } => Block::Redacted(data@),
            AnthropicContentBlock::ToolUse { id, name } => Block::ToolUse(id@, name@),
            AnthropicContentBlock::Text { text } => Block::Text(text@),
        }
    }
}

impl View for AnthropicContentDelta {
    type V = Delta;

    open spec fn view(&self) -> Delta {
        match *self {
            AnthropicContentDelta::ThinkingDelta { thinking } => Delta::Thinking(thinking@),
            AnthropicContentDelta::SignatureDelta { signature } => Delta::Signature(signature@),
            AnthropicContentDelta::TextDelta { text } => Delta::Text(text@),
            AnthropicContentDelta::InputJsonDelta { partial_json } => Delta::Json(partial_json@),
        }
    }
}

impl View for AnthropicStreamEvent {
    type V = Event;

    open spec fn view(&self) -> Event {
        match *self {
            AnthropicStreamEvent::MessageStart { usage } => Event::Start(usage),
            AnthropicStreamEvent::MessageDelta { stop_reason, usage } => Event::MessageDelta(
                text::opt(stop_reason),
                usage,
            ),
            AnthropicStreamEvent::MessageStop => Event::Stop,
            AnthropicStreamEvent::ContentBlockStart { content_block } => Event::BlockStart(
                content_block@,
            ),
            AnthropicStreamEvent::ContentBlockDelta { delta } => Event::BlockDelta(delta@),
            AnthropicStreamEvent::ContentBlockStop => Event::BlockStop,
            AnthropicStreamEvent::Ping => Event::Ping,
            AnthropicStreamEvent::Error { error_type, message } => Event::Error(
                error_type@,
                message@,
            ),
        }
    }
}

/// The members of token counts.
pub open spec fn usage_members() -> Seq<Seq<char>> {
    seq![
        "input_tokens"@,
        "output_tokens"@,
        "cache_creation_input_tokens"@,
        "cache_read_input_tokens"@,
    ]
}

/// The token counts that a JSON object describes.
pub open spec fn usage_of(t: Tree) -> Option<AnthropicUsage> {
    let t = fields::record(t, usage_members(), 4);
    let max = u32::MAX as int;
    if !(t is Obj) {
        None
    } else {
        match (
            fields::number_or_zero(t, "input_tokens"@, max),
            fields::number_or_zero(t, "output_tokens"@, max),
            fields::maybe_number(t, "cache_creation_input_tokens"@, max),
            fields::maybe_number(t, "cache_read_input_tokens"@, max),
        ) {
            (Some(i), Some(o), Some(w), Some(r)) => Some(
                AnthropicUsage {
                    input_tokens: i as u32,
                    output_tokens: o as u32,
                    cache_creation_input_tokens: minimax_stream::opt_count(w),
                    cache_read_input_tokens: minimax_stream::opt_count(r),
                },
            ),
            _ => None,
        }
    }
}

/// The token counts under the key `usage`.
pub open spec fn usage_in(t: Tree) -> Option<AnthropicUsage> {
    match t.get("usage"@) {
        Some(u) => usage_of(u),
        None => None,
    }
}

/// The kind of a block or of what is added to one: by its name, or by its number among
/// the kinds that there are.
pub open spec fn kind_in(t: Tree, kinds: Seq<Seq<char>>) -> Option<Seq<char>> {
    match t {
        Tree::Str(s) => Some(s),
        Tree::Int(n) => if 0 <= n < kinds.len() {
            Some(kinds[n])
        } else {
            None
        },
        _ => None,
    }
}

/// The kind under the key `type`.
pub open spec fn kind_of(t: Tree, kinds: Seq<Seq<char>>) -> Option<Seq<char>> {
    match t.get("type"@) {
        Some(k) => kind_in(k, kinds),
        None => None,
    }
}

/// The kind of a value that is written as a list, whose first item it is.
pub open spec fn first_kind(v: Seq<Tree>, kinds: Seq<Seq<char>>) -> Option<Seq<char>> {
    if v.len() > 0 {
        kind_in(v[0], kinds)
    } else {
        None
    }
}

/// A record whose members depend on its kind, as an object.
pub open spec fn kind_record(
    t: Tree,
    kinds: Seq<Seq<char>>,
    members: spec_fn(Seq<char>) -> Seq<Seq<char>>,
) -> Tree {
    match t {
        Tree::Arr(v) => match first_kind(v, kinds) {
            Some(k) => fields::record(t, members(k), members(k).len() as int),
            None => Tree::Null,
        },
        _ => t,
    }
}

/// The kinds of blocks.
pub open spec fn block_kinds() -> Seq<Seq<char>> {
    seq!["thinking"@, "redacted_thinking"@, "tool_use"@, "text"@]
}

/// The members of a block of a kind.
pub open spec fn block_members(kind: Seq<char>) -> Seq<Seq<char>> {
    if kind == "thinking"@ {
        seq!["type"@, "thinking"@, "signature"@]
    } else if kind == "redacted_thinking"@ {
        seq!["type"@, "data"@]
    } else if kind == "tool_use"@ {
        seq!["type"@, "id"@, "name"@]
    } else {
        seq!["type"@, "text"@]
    }
}

/// The kinds of what is added to blocks.
pub open spec fn delta_kinds() -> Seq<Seq<char>> {
    seq!["thinking_delta"@, "signature_delta"@, "text_delta"@, "input_json_delta"@]
}

/// The members of what is added to a block, by its kind.
pub open spec fn delta_members(kind: Seq<char>) -> Seq<Seq<char>> {
    if kind == "thinking_delta"@ {
        seq!["type"@, "thinking"@]
    } else if kind == "signature_delta"@ {
        seq!["type"@, "signature"@]
    } else if kind == "text_delta"@ {
        seq!["type"@, "text"@]
    } else {
        seq!["type"@, "partial_json"@]
    }
}

/// The members of an event of a kind.
pub open spec fn event_members(kind: Seq<char>) -> Seq<Seq<char>> {
    if kind == "message_start"@ {
        seq!["type"@, "message"@]
    } else if kind == "message_delta"@ {
        seq!["type"@, "delta"@, "usage"@]
    } else if kind == "content_block_start"@ {
        seq!["type"@, "content_block"@]
    } else if kind == "content_block_delta"@ {
        seq!["type"@, "delta"@]
    } else if kind == "error"@ {
        seq!["type"@, "error"@]
    } else {
        seq!["type"@]
    }
}

/// The members of the message that an event begins.
pub open spec fn message_members() -> Seq<Seq<char>> {
    seq!["usage"@]
}

/// The members of what an event tells of the end of a message.
pub open spec fn end_members() -> Seq<Seq<char>> {
    seq!["stop_reason"@]
}

/// The members of an error.
pub open spec fn error_members() -> Seq<Seq<char>> {
    seq!["type"@, "message"@]
}

/// The block of content that a JSON object describes.
pub open spec fn block_of(t: Tree) -> Option<Block> {
    let t = kind_record(t, block_kinds(), |k: Seq<char>| block_members(k));
    match kind_of(t, block_kinds()) {
        None => None,
        Some(kind) => if kind == "thinking"@ {
            match (fields::text_of(t, "thinking"@), fields::maybe_text(t, "signature"@)) {
                (Some(a), Some(b)) => Some(Block::Thinking(a, b)),
                _ => None,
            }
        } else if kind == "redacted_thinking"@ {
            match fields::text_of(t, "data"@) {
                Some(d) => Some(Block::Redacted(d)),
                None => None,
            }
        } else if kind == "tool_use"@ {
            match (fields::text_of(t, "id"@), fields::text_of(t, "name"@)) {
                (Some(a), Some(b)) => Some(Block::ToolUse(a, b)),
                _ => None,
            }
        } else if kind == "text"@ {
            match fields::text_of(t, "text"@) {
                Some(d) => Some(Block::Text(d)),
                None => None,
            }
        } else {
            None
        },
    }
}

/// What is added to a block, as a JSON object describes it.
pub open spec fn delta_of(t: Tree) -> Option<Delta> {
    let t = kind_record(t, delta_kinds(), |k: Seq<char>| delta_members(k));
    match kind_of(t, delta_kinds()) {
        None => None,
        Some(kind) => if kind == "thinking_delta"@ {
            match fields::text_of(t, "thinking"@) {
                Some(d) => Some(Delta::Thinking(d)),
                None => None,
            }
        } else if kind == "signature_delta"@ {
            match fields::text_of(t, "signature"@) {
                Some(d) => Some(Delta::Signature(d)),
                None => None,
            }
        } else if kind == "text_delta"@ {
            match fields::text_of(t, "text"@) {
                Some(d) => Some(Delta::Text(d)),
                None => None,
            }
        } else if kind == "input_json_delta"@ {
            match fields::text_of(t, "partial_json"@) {
                Some(d) => Some(Delta::Json(d)),
                None => None,
            }
        } else {
            None
        },
    }
}

/// The event that a JSON object describes.
pub open spec fn event_of(t: Tree) -> Option<Event> {
    let t = kind_record(t, Seq::empty(), |k: Seq<char>| event_members(k));
    match fields::text_of(t, "type"@) {
        None => None,
        Some(kind) => if kind == "message_start"@ {
            match t.get("message"@) {
                Some(m) => match usage_in(fields::record(m, message_members(), 1)) {
                    Some(u) => Some(Event::Start(u)),
                    None => None,
                },
                None => None,
            }
        } else if kind == "message_delta"@ {
            match (t.get("delta"@), usage_in(t)) {
                (Some(n), Some(u)) => {
                    let d = fields::record(n, end_members(), 1);
                    if d is Obj {
                        match fields::maybe_text(d, "stop_reason"@) {
                            Some(r) => Some(Event::MessageDelta(r, u)),
                            None => None,
                        }
                    } else {
                        None
                    }
                },
                _ => None,
            }
        } else if kind == "message_stop"@ {
            Some(Event::Stop)
        } else if kind == "content_block_start"@ {
            match t.get("content_block"@) {
                Some(b) => match block_of(b) {
                    Some(x) => Some(Event::BlockStart(x)),
                    None => None,
                },
                None => None,
            }
        } else if kind == "content_block_delta"@ {
            match t.get("delta"@) {
                Some(d) => match delta_of(d) {
                    Some(x) => Some(Event::BlockDelta(x)),
                    None => None,
                },
                None => None,
            }
        } else if kind == "content_block_stop"@ {
            Some(Event::BlockStop)
        } else if kind == "ping"@ {
            Some(Event::Ping)
        } else if kind == "error"@ {
            match t.get("error"@) {
                Some(n) => {
                    let e = fields::record(n, error_members(), 2);
                    match (fields::text_of(e, "type"@), fields::text_of(e, "message"@)) {
                        (Some(a), Some(b)) => Some(Event::Error(a, b)),
                        _ => None,
                    }
                },
                None => None,
            }
        } else {
            None
        },
    }
}

fn read_usage(j: &Json) -> (r: Option<AnthropicUsage>)
    ensures
        r == usage_in(j@),
{
    let u = match j.get("usage") {
        Some(u) => u,
        None => return None,
    };
    let names: [&str; 4] = [
        "input_tokens",
        "output_tokens",
        "cache_creation_input_tokens",
        "cache_read_input_tokens",
    ];
    assert(fields::names_of(names@) =~= usage_members());
    let listed = fields::read_listed(u, &names, 4);
    let o = match &listed {
        Some(r) => r,
        None => u,
    };
    if o.as_object().is_none() {
        return None;
    }
    let max: u64 = u32::MAX as u64;
    let input_tokens: u32 = match fields::read_number_or_zero(o, "input_tokens", max) {
        Some(n) => n as u32,
        None => return None,
    };
    let output_tokens: u32 = match fields::read_number_or_zero(o, "output_tokens", max) {
        Some(n) => n as u32,
        None => return None,
    };
    let cache_creation_input_tokens: Option<u32> = match fields::read_maybe_number(
        o,
        "cache_creation_input_tokens",
        max,
    ) {
        Some(Some(n)) => Some(n as u32),
        Some(None) => None,
        None => return None,
    };
    let cache_read_input_tokens: Option<u32> = match fields::read_maybe_number(
        o,
        "cache_read_input_tokens",
        max,
    ) {
        Some(Some(n)) => Some(n as u32),
        Some(None) => None,
        None => return None,
    };
    Some(
        AnthropicUsage {
            input_tokens,
            output_tokens,
            cache_creation_input_tokens,
            cache_read_input_tokens,
        },
    )
}

fn read_kind(j: &Json, kinds: &[&str]) -> (r: Option<String>)
    ensures
        text::opt(r) == kind_in(j@, fields::names_of(kinds@)),
{
    match j {
        Json::Str(s) => Some(s.clone()),
        Json::Int(n) => {
            if 0 <= *n && *n < kinds.len() as i128 {
                let i: usize = *n as usize;
                let k: &str = kinds[i];
                Some(k.to_owned())
            } else {
                None
            }
        },
        _ => None,
    }
}

fn read_first_kind(v: &Vec<Json>, kinds: &[&str]) -> (r: Option<String>)
    ensures
        text::opt(r) == first_kind(json::trees(v@), fields::names_of(kinds@)),
{
    if v.len() > 0 {
        read_kind(&v[0], kinds)
    } else {
        None
    }
}

fn listed_block(j: &Json, kinds: &[&str]) -> (r: Option<Json>)
    requires
        fields::names_of(kinds@) == block_kinds(),
    ensures
        ({
            let t = kind_record(j@, block_kinds(), |k: Seq<char>| block_members(k));
            &&& r matches Some(o) ==> o@ == t
            &&& r is None ==> j@ == t
        }),
{
    let v = match j.as_array() {
        Some(v) => v,
        None => return None,
    };
    let kind = match read_first_kind(v, kinds) {
        Some(k) => k,
        None => return Some(Json::Null),
    };
    let thinking: [&str; 3] = ["type", "thinking", "signature"];
    let redacted: [&str; 2] = ["type", "data"];
    let tool: [&str; 3] = ["type", "id", "name"];
    let plain: [&str; 2] = ["type", "text"];
    assert(fields::names_of(thinking@) =~= seq!["type"@, "thinking"@, "signature"@]);
    assert(fields::names_of(redacted@) =~= seq!["type"@, "data"@]);
    assert(fields::names_of(tool@) =~= seq!["type"@, "id"@, "name"@]);
    assert(fields::names_of(plain@) =~= seq!["type"@, "text"@]);
    if text::same(kind.as_str(), "thinking") {
        fields::read_listed(j, &thinking, 3)
    } else if text::same(kind.as_str(), "redacted_thinking") {
        fields::read_listed(j, &redacted, 2)
    } else if text::same(kind.as_str(), "tool_use") {
        fields::read_listed(j, &tool, 3)
    } else {
        fields::read_listed(j, &plain, 2)
    }
}

fn listed_delta(j: &Json, kinds: &[&str]) -> (r: Option<Json>)
    requires
        fields::names_of(kinds@) == delta_kinds(),
    ensures
        ({
            let t = kind_record(j@, delta_kinds(), |k: Seq<char>| delta_members(k));
            &&& r matches Some(o) ==> o@ == t
            &&& r is None ==> j@ == t
        }),
{
    let v = match j.as_array() {
        Some(v) => v,
        None => return None,
    };
    let kind = match read_first_kind(v, kinds) {
        Some(k) => k,
        None => return Some(Json::Null),
    };
    let thinking: [&str; 2] = ["type", "thinking"];
    let signature: [&str; 2] = ["type", "signature"];
    let plain: [&str; 2] = ["type", "text"];
    let input: [&str; 2] = ["type", "partial_json"];
    assert(fields::names_of(thinking@) =~= seq!["type"@, "thinking"@]);
    assert(fields::names_of(signature@) =~= seq!["type"@, "signature"@]);
    assert(fields::names_of(plain@) =~= seq!["type"@, "text"@]);
    assert(fields::names_of(input@) =~= seq!["type"@, "partial_json"@]);
    if text::same(kind.as_str(), "thinking_delta") {
        fields::read_listed(j, &thinking, 2)
    } else if text::same(kind.as_str(), "signature_delta") {
        fields::read_listed(j, &signature, 2)
    } else if text::same(kind.as_str(), "text_delta") {
        fields::read_listed(j, &plain, 2)
    } else {
        fields::read_listed(j, &input, 2)
    }
}

fn listed_event(j: &Json) -> (r: Option<Json>)
    ensures
        ({
            let t = kind_record(j@, Seq::empty(), |k: Seq<char>| event_members(k));
            &&& r matches Some(o) ==> o@ == t
            &&& r is None ==> j@ == t
        }),
{
    let v = match j.as_array() {
        Some(v) => v,
        None => return None,
    };
    let none: [&str; 0] = [];
    assert(fields::names_of(none@) =~= Seq::empty());
    let kind = match read_first_kind(v, &none) {
        Some(k) => k,
        None => return Some(Json::Null),
    };
    let start: [&str; 2] = ["type", "message"];
    let end: [&str; 3] = ["type", "delta", "usage"];
    let block: [&str; 2] = ["type", "content_block"];
    let delta: [&str; 2] = ["type", "delta"];
    let error: [&str; 2] = ["type", "error"];
    let bare: [&str; 1] = ["type"];
    assert(fields::names_of(start@) =~= seq!["type"@, "message"@]);
    assert(fields::names_of(end@) =~= seq!["type"@, "delta"@, "usage"@]);
    assert(fields::names_of(block@) =~= seq!["type"@, "content_block"@]);
    assert(fields::names_of(delta@) =~= seq!["type"@, "delta"@]);
    assert(fields::names_of(error@) =~= seq!["type"@, "error"@]);
    assert(fields::names_of(bare@) =~= seq!["type"@]);
    if text::same(kind.as_str(), "message_start") {
        fields::read_listed(j, &start, 2)
    } else if text::same(kind.as_str(), "message_delta") {
        fields::read_listed(j, &end, 3)
    } else if text::same(kind.as_str(), "content_block_start") {
        fields::read_listed(j, &block, 2)
    } else if text::same(kind.as_str(), "content_block_delta") {
        fields::read_listed(j, &delta, 2)
    } else if text::same(kind.as_str(), "error") {
        fields::read_listed(j, &error, 2)
    } else {
        fields::read_listed(j, &bare, 1)
    }
}

fn read_block(j: &Json) -> (r: Option<AnthropicContentBlock>)
    ensures
        r matches Some(b) ==> block_of(j@) == Some(b@),
        r is None ==> block_of(j@) is None,
{
    let kinds: [&str; 4] = ["thinking", "redacted_thinking", "tool_use", "text"];
    assert(fields::names_of(kinds@) =~= block_kinds());
    let listed = listed_block(j, &kinds);
    let o = match &listed {
        Some(r) => r,
        None => j,
    };
    let kind = match o.get("type") {
        Some(t) => match read_kind(t, &kinds) {
            Some(k) => k,
            None => return None,
        },
        None => return None,
    };
    let k = kind.as_str();
    if text::same(k, "thinking") {
        let thinking = match fields::read_text(o, "thinking") {
            Some(t) => t,
            None => return None,
        };
        match fields::read_maybe_text(o, "signature") {
            Some(signature) => Some(AnthropicContentBlock::Thinking { thinking, signature }),
            None => None,
        }
    } else if text::same(k, "redacted_thinking") {
        match fields::read_text(o, "data") {
            Some(data) => Some(AnthropicContentBlock::RedactedThinking { data }),
            None => None,
        }
    } else if text::same(k, "tool_use") {
        let id = match fields::read_text(o, "id") {
            Some(t) => t,
            None => return None,
        };
        match fields::read_text(o, "name") {
            Some(name) => Some(AnthropicContentBlock::ToolUse { id, name }),
            None => None,
        }
    } else if text::same(k, "text") {
        match fields::read_text(o, "text") {
            Some(text) => Some(AnthropicContentBlock::Text { text }),
            None => None,
        }
    } else {
        None
    }
}

fn read_delta(j: &Json) -> (r: Option<AnthropicContentDelta>)
    ensures
        r matches Some(d) ==> delta_of(j@) == Some(d@),
        r is None ==> delta_of(j@) is None,
{
    let kinds: [&str; 4] = [
        "thinking_delta",
        "signature_delta",
        "text_delta",
        "input_json_delta",
    ];
    assert(fields::names_of(kinds@) =~= delta_kinds());
    let listed = listed_delta(j, &kinds);
    let o = match &listed {
        Some(r) => r,
        None => j,
    };
    let kind = match o.get("type") {
        Some(t) => match read_kind(t, &kinds) {
            Some(k) => k,
            None => return None,
        },
        None => return None,
    };
    let k = kind.as_str();
    if text::same(k, "thinking_delta") {
        match fields::read_text(o, "thinking") {
            Some(thinking) => Some(AnthropicContentDelta::ThinkingDelta { thinking }),
            None => None,
        }
    } else if text::same(k, "signature_delta") {
        match fields::read_text(o, "signature") {
            Some(signature) => Some(AnthropicContentDelta::SignatureDelta { signature }),
            None => None,
        }
    } else if text::same(k, "text_delta") {
        match fields::read_text(o, "text") {
            Some(text) => Some(AnthropicContentDelta::TextDelta { text }),
            None => None,
        }
    } else if text::same(k, "input_json_delta") {
        match fields::read_text(o, "partial_json") {
            Some(partial_json) => Some(AnthropicContentDelta::InputJsonDelta { partial_json }),
            None => None,
        }
    } else {
        None
    }
}

/// Reads an event.
pub fn read_anthropic_event(j: &Json) -> (r: Option<AnthropicStreamEvent>)
    ensures
        r matches Some(e) ==> event_of(j@) == Some(e@),
        r is None ==> event_of(j@) is None,
{
    let listed = listed_event(j);
    let o = match &listed {
        Some(r) => r,
        None => j,
    };
    let kind = match fields::read_text(o, "type") {
        Some(k) => k,
        None => return None,
    };
    let k = kind.as_str();
    if text::same(k, "message_start") {
        match o.get("message") {
            Some(m) => {
                let names: [&str; 1] = ["usage"];
                assert(fields::names_of(names@) =~= message_members());
                let message = fields::read_listed(m, &names, 1);
                let usage = match &message {
                    Some(r) => read_usage(r),
                    None => read_usage(m),
                };
                match usage {
                    Some(usage) => Some(AnthropicStreamEvent::MessageStart { usage }),
                    None => None,
                }
            },
            None => None,
        }
    } else if text::same(k, "message_delta") {
        let n = match o.get("delta") {
            Some(d) => d,
            None => return None,
        };
        let names: [&str; 1] = ["stop_reason"];
        assert(fields::names_of(names@) =~= end_members());
        let end = fields::read_listed(n, &names, 1);
        let d = match &end {
            Some(r) => r,
            None => n,
        };
        let usage = match read_usage(o) {
            Some(u) => u,
            None => return None,
        };
        if d.as_object().is_none() {
            return None;
        }
        match fields::read_maybe_text(d, "stop_reason") {
            Some(stop_reason) => Some(AnthropicStreamEvent::MessageDelta { stop_reason, usage }),
            None => None,
        }
    } else if text::same(k, "message_stop") {
        Some(AnthropicStreamEvent::MessageStop)
    } else if text::same(k, "content_block_start") {
        match o.get("content_block") {
            Some(b) => match read_block(b) {
                Some(content_block) => Some(
                    AnthropicStreamEvent::ContentBlockStart { content_block },
                ),
                None => None,
            },
            None => None,
        }
    } else if text::same(k, "content_block_delta") {
        match o.get("delta") {
            Some(d) => match read_delta(d) {
                Some(delta) => Some(AnthropicStreamEvent::ContentBlockDelta { delta }),
                None => None,
            },
            None => None,
        }
    } else if text::same(k, "content_block_stop") {
        Some(AnthropicStreamEvent::ContentBlockStop)
    } else if text::same(k, "ping") {
        Some(AnthropicStreamEvent::Ping)
    } else if text::same(k, "error") {
        let n = match o.get("error") {
            Some(e) => e,
            None => return None,
        };
        let names: [&str; 2] = ["type", "message"];
        assert(fields::names_of(names@) =~= error_members());
        let error = fields::read_listed(n, &names, 2);
        let e = match &error {
            Some(r) => r,
            None => n,
        };
        let error_type = match fields::read_text(e, "type") {
            Some(t) => t,
            None => return None,
        };
        match fields::read_text(e, "message") {
            Some(message) => Some(AnthropicStreamEvent::Error { error_type, message }),
            None => None,
        }
    } else {
        None
    }
}

// ---------------------------------------------------------------------------
// What an event does
// ---------------------------------------------------------------------------

/// The tool call that is being assembled, and whether the last block was text.
#[derive(Debug)]
pub struct AnthropicToolCallState {
    pub id: String,
    pub name: String,
    pub arguments: String,
    pub last_was_text: bool,
}

/// The mathematical value of the state.
pub struct Anth {
    pub id: Seq<char>,
    pub name: Seq<char>,
    pub arguments: Seq<char>,
    pub last_was_text: bool,
}

impl View for AnthropicToolCallState {
    type V = Anth;

    open spec fn view(&self) -> Anth {
        Anth {
            id: self.id@,
            name: self.name@,
            arguments: self.arguments@,
            last_was_text: self.last_was_text,
        }
    }
}

/// The state before the first event.
pub open spec fn fresh_state() -> Anth {
    Anth {
        id: Seq::empty(),
        name: Seq::empty(),
        arguments: Seq::empty(),
        last_was_text: false,
    }
}

impl Default for AnthropicToolCallState {
    fn default() -> (r: Self)
        ensures
            r@ == fresh_state(),
    {
        AnthropicToolCallState {
            id: String::new(),
            name: String::new(),
            arguments: String::new(),
            last_was_text: false,
        }
    }
}

/// A call is being assembled.
pub open spec fn has_call(s: Anth) -> bool {
    s.id.len() > 0 && s.name.len() > 0
}

/// The state after an event.
pub open spec fn after(s: Anth, e: Event) -> Anth {
    match e {
        Event::BlockStart(Block::ToolUse(id, name)) => Anth {
            id,
            name,
            arguments: Seq::empty(),
            last_was_text: false,
        },
        Event::BlockStart(Block::Text(t)) => Anth { last_was_text: true, ..s },
        Event::BlockStart(_) => Anth { last_was_text: false, ..s },
        Event::BlockDelta(Delta::Json(part)) => if has_call(s) {
            Anth { arguments: tool_args::appended(s.arguments, part), ..s }
        } else {
            s
        },
        Event::BlockStop => fresh_state(),
        _ => s,
    }
}

/// A chunk of token counts.
pub open spec fn usage_chunk(input: u32, u: AnthropicUsage, stop: Option<Seq<char>>) -> Chunk {
    Chunk::Usage(
        Usage {
            input_tokens: input,
            output_tokens: u.output_tokens,
            cache_write_tokens: u.cache_creation_input_tokens,
            cache_read_tokens: u.cache_read_input_tokens,
            reasoning_tokens: None,
            thoughts_token_count: None,
            total_cost: None,
            stop_reason: stop,
            id: None,
        },
    )
}

/// A chunk of reasoning with what is known of it.
pub open spec fn thought(
    t: Seq<char>,
    signature: Option<Seq<char>>,
    redacted: Option<Seq<char>>,
) -> Chunk {
    Chunk::Reasoning { reasoning: t, details: None, signature, redacted_data: redacted, id: None }
}

/// The chunks of an event. A text block that begins while another one has not ended yet
/// begins on a new line; a call is announced when its block begins and made when it ends.
pub open spec fn event_chunks(s: Anth, e: Event) -> Seq<Chunk> {
    match e {
        Event::Start(u) => seq![usage_chunk(u.input_tokens, u, None)],
        Event::MessageDelta(stop, u) => seq![usage_chunk(0, u, stop)],
        Event::Stop => Seq::empty(),
        Event::Ping => Seq::empty(),
        Event::Error(kind, message) => seq![
            Chunk::Error("Anthropic API error ("@ + kind + "): "@ + message),
        ],
        Event::BlockStart(Block::Thinking(t, signature)) => seq![thought(t, signature, None)],
        Event::BlockStart(Block::Redacted(d)) => seq![
            thought("[Redacted thinking block]"@, None, Some(d)),
        ],
        Event::BlockStart(Block::ToolUse(id, name)) => seq![
            types::call_chunk(id, name, Seq::empty(), None),
        ],
        Event::BlockStart(Block::Text(t)) => if s.last_was_text {
            seq![types::text_chunk("\n"@, None), types::text_chunk(t, None)]
        } else {
            seq![types::text_chunk(t, None)]
        },
        Event::BlockDelta(Delta::Thinking(t)) => seq![thought(t, None, None)],
        Event::BlockDelta(Delta::Signature(g)) => seq![thought(Seq::empty(), Some(g), None)],
        Event::BlockDelta(Delta::Text(t)) => seq![types::text_chunk(t, None)],
        Event::BlockDelta(Delta::Json(_)) => Seq::empty(),
        Event::BlockStop => if has_call(s) {
            seq![types::call_chunk(s.id, s.name, tool_args::validated(s.arguments), None)]
        } else {
            Seq::empty()
        },
    }
}

/// The state of a response and the chunks that were emitted so far.
pub struct Progress {
    pub state: Anth,
    pub chunks: Seq<Chunk>,
}

impl Progress {
    /// Takes an event in.
    pub open spec fn event(self, e: Event) -> Progress {
        Progress { state: after(self.state, e), chunks: self.chunks + event_chunks(self.state, e) }
    }

    /// Takes a line in. A line that is no event is passed over.
    pub open spec fn line(self, line: Seq<char>) -> Progress {
        let l = text::trimmed(line);
        if l.len() == 0 || l == "data: [DONE]"@ {
            self
        } else {
            match stream_events::payload(l) {
                None => self,
                Some(d) => match json::parsed(d) {
                    None => self,
                    Some(t) => match event_of(t) {
                        None => self,
                        Some(e) => self.event(e),
                    },
                },
            }
        }
    }

    /// Takes lines in, in order.
    pub open spec fn lines(self, lines: Seq<Seq<char>>) -> Progress
        decreases lines.len(),
    {
        if lines.len() == 0 {
            self
        } else {
            self.lines(lines.drop_last()).line(lines.last())
        }
    }

    /// Takes bytes in that a buffer cut into lines.
    pub open spec fn bytes(self, buffer: LineState, bytes: Seq<u8>) -> Progress {
        let (b, raw) = buffer.push(bytes);
        let p = self.lines(sse::decoded(raw));
        if b.exceeded {
            Progress {
                chunks: p.chunks.push(Chunk::Error(sse::overflow_text(b.max))),
                ..p
            }
        } else {
            p
        }
    }

    /// The end of a response: the line that is left.
    pub open spec fn finish(self, buffer: LineState) -> Progress {
        if buffer.pending.len() > 0 {
            self.line(sse::lossy(buffer.pending))
        } else {
            self
        }
    }
}

/// The state and the chunks of a response so far.
pub open spec fn progress(s: Anth, out: Seq<ApiStreamChunk>) -> Progress {
    Progress { state: s, chunks: types::chunks(out) }
}

/// Arguments stay within the size limit.
pub proof fn law_arguments_stay_within_limit(s: Anth, e: Event)
    requires
        text::byte_len(s.arguments) <= types::MAX_TOOL_ARGUMENT_SIZE,
    ensures
        text::byte_len(after(s, e).arguments) <= types::MAX_TOOL_ARGUMENT_SIZE,
{
    if let Event::BlockDelta(Delta::Json(part)) = e {
        tool_args::law_arguments_stay_within_limit(s.arguments, part);
    }
}

/// A call is made once: after its block ended, a further end makes no call.
pub proof fn law_call_is_made_once(s: Anth)
    ensures
        event_chunks(after(s, Event::BlockStop), Event::BlockStop) == Seq::<Chunk>::empty(),
{
}

/// The arguments of a call are the fragments of its block, joined: two fragments count
/// as one, as long as they fit.
pub proof fn law_fragments_are_joined(s: Anth, a: Seq<char>, b: Seq<char>)
    requires
        has_call(s),
        text::byte_len(s.arguments) + text::byte_len(a) + text::byte_len(b)
            <= types::MAX_TOOL_ARGUMENT_SIZE,
    ensures
        after(
            after(s, Event::BlockDelta(Delta::Json(a))),
            Event::BlockDelta(Delta::Json(b)),
        ) == after(s, Event::BlockDelta(Delta::Json(a + b))),
{
    tool_args::law_fitting_fragment_is_whole(s.arguments, a);
    text::lemma_byte_len_add(s.arguments, a);
    text::lemma_byte_len_add(a, b);
    tool_args::law_fitting_fragment_is_whole(s.arguments + a, b);
    tool_args::law_fitting_fragment_is_whole(s.arguments, a + b);
    assert(s.arguments + a + b =~= s.arguments + (a + b));
}

fn emit_usage(
    input_tokens: u32,
    u: &AnthropicUsage,
    stop_reason: Option<String>,
    out: &mut Vec<ApiStreamChunk>,
)
    ensures
        types::chunks(final(out)@) == types::chunks(old(out)@).push(
            usage_chunk(input_tokens, *u, text::opt(stop_reason)),
        ),
{
    types::emit(
        out,
        ApiStreamChunk::Usage(
            ApiStreamUsageChunk {
                input_tokens,
                output_tokens: u.output_tokens,
                cache_write_tokens: u.cache_creation_input_tokens,
                cache_read_tokens: u.cache_read_input_tokens,
                reasoning_tokens: None,
                thoughts_token_count: None,
                total_cost: None,
                stop_reason,
                id: None,
            },
        ),
    );
}

fn emit_thought(
    t: &str,
    signature: Option<String>,
    redacted_data: Option<String>,
    out: &mut Vec<ApiStreamChunk>,
)
    ensures
        types::chunks(final(out)@) == types::chunks(old(out)@).push(
            thought(t@, text::opt(signature), text::opt(redacted_data)),
        ),
{
    types::emit(
        out,
        ApiStreamChunk::Reasoning(
            ApiStreamReasoningChunk {
                reasoning: t.to_owned(),
                details: None,
                signature,
                redacted_data,
                id: None,
            },
        ),
    );
}

/// Takes an event in.
pub fn process_anthropic_event(
    event: &AnthropicStreamEvent,
    s: &mut AnthropicToolCallState,
    out: &mut Vec<ApiStreamChunk>,
)
    ensures
        final(s)@ == after(old(s)@, event@),
        types::chunks(final(out)@) == types::chunks(old(out)@) + event_chunks(old(s)@, event@),
{
    let ghost start = types::chunks(out@);
    let ghost before = s@;
    match event {
        AnthropicStreamEvent::MessageStart { usage } => {
            emit_usage(usage.input_tokens, usage, None, out);
        },
        AnthropicStreamEvent::MessageDelta { stop_reason, usage } => {
            emit_usage(0, usage, text::copy_opt(stop_reason), out);
        },
        AnthropicStreamEvent::MessageStop => {},
        AnthropicStreamEvent::Ping => {},
        AnthropicStreamEvent::Error { error_type, message } => {
            let mut m = "Anthropic API error (".to_owned();
            text::push_text(&mut m, error_type.as_str());
            text::push_text(&mut m, "): ");
            text::push_text(&mut m, message.as_str());
            types::emit_error(out, m.as_str());
        },
        AnthropicStreamEvent::ContentBlockStart { content_block } => match content_block {
            AnthropicContentBlock::Thinking { thinking, signature } => {
                s.last_was_text = false;
                emit_thought(thinking.as_str(), text::copy_opt(signature), None, out);
            },
            AnthropicContentBlock::RedactedThinking { data } => {
                s.last_was_text = false;
                emit_thought("[Redacted thinking block]", None, Some(data.clone()), out);
            },
            AnthropicContentBlock::ToolUse { id, name } => {
                s.id = id.clone();
                s.name = name.clone();
                s.arguments = String::new();
                s.last_was_text = false;
                let empty = String::new();
                types::emit_call(out, id.as_str(), name.as_str(), empty.as_str(), &None);
            },
            AnthropicContentBlock::Text { text } => {
                if s.last_was_text {
                    types::emit_text(out, "\n", &None);
                }
                s.last_was_text = true;
                types::emit_text(out, text.as_str(), &None);
            },
        },
        AnthropicStreamEvent::ContentBlockDelta { delta } => match delta {
            AnthropicContentDelta::ThinkingDelta { thinking } => {
                emit_thought(thinking.as_str(), None, None, out);
            },
            AnthropicContentDelta::SignatureDelta { signature } => {
                let empty = String::new();
                emit_thought(empty.as_str(), Some(signature.clone()), None, out);
            },
            AnthropicContentDelta::TextDelta { text } => {
                types::emit_text(out, text.as_str(), &None);
            },
            AnthropicContentDelta::InputJsonDelta { partial_json } => {
                if !s.id.as_str().is_empty() && !s.name.as_str().is_empty() {
                    tool_args::append_args(&mut s.arguments, partial_json.as_str());
                }
            },
        },
        AnthropicStreamEvent::ContentBlockStop => {
            if !s.id.as_str().is_empty() && !s.name.as_str().is_empty() {
                let arguments = tool_args::validate_tool_call_args(
                    s.arguments.as_str(),
                    "Anthropic",
                    "at content_block_stop",
                );
                types::emit_call(
                    out,
                    s.id.as_str(),
                    s.name.as_str(),
                    arguments.as_str(),
                    &None,
                );
            }
            s.id = String::new();
            s.name = String::new();
            s.arguments = String::new();
            s.last_was_text = false;
        },
    }
    assert(types::chunks(out@) =~= start + event_chunks(before, event@));
}

/// Takes a line of the response in.
pub fn process_anthropic_sse_line(
    line: &str,
    s: &mut AnthropicToolCallState,
    out: &mut Vec<ApiStreamChunk>,
)
    ensures
        progress(final(s)@, final(out)@) == progress(old(s)@, old(out)@).line(line@),
{
    let l = text::trim(line);
    if l.as_str().is_empty() || text::same(l.as_str(), "data: [DONE]") {
        return;
    }
    if let Some(d) = stream_events::line_payload(l.as_str()) {
        if let Some(j) = json::parse(d.as_str()) {
            if let Some(e) = read_anthropic_event(&j) {
                process_anthropic_event(&e, s, out);
            }
        }
    }
}

/// Takes bytes of the response in: every line that they complete, and the report of a
/// line that grew too long.
pub fn parse_anthropic_sse_to_chunks(
    chunk: &[u8],
    buffer: &mut SseLineBuffer,
    s: &mut AnthropicToolCallState,
    out: &mut Vec<ApiStreamChunk>,
)
    ensures
        final(buffer)@ == sse::buffer_after(old(buffer)@, chunk@),
        progress(final(s)@, final(out)@) == progress(old(s)@, old(out)@).bytes(
            old(buffer)@,
            chunk@,
        ),
{
    let lines = buffer.push_chunk(chunk);
    let ghost start = progress(s@, out@);
    let ghost ts = text::texts(lines@);
    let mut i: usize = 0;
    assert(ts.take(0) =~= Seq::empty());
    while i < lines.len()
        invariant
            i <= lines@.len(),
            ts == text::texts(lines@),
            progress(s@, out@) == start.lines(ts.take(i as int)),
        decreases lines@.len() - i,
    {
        proof {
            assert(ts.take(i + 1).drop_last() =~= ts.take(i as int));
            assert(ts.take(i + 1).last() == lines@[i as int]@);
        }
        process_anthropic_sse_line(lines[i].as_str(), s, out);
        i = i + 1;
    }
    assert(ts.take(i as int) =~= ts);
    if let Some(e) = buffer.take_error() {
        types::emit_error(out, e.as_str());
    }
}

/// Ends the response.
pub fn finish_anthropic_sse_to_chunks(
    buffer: &mut SseLineBuffer,
    s: &mut AnthropicToolCallState,
    out: &mut Vec<ApiStreamChunk>,
)
    ensures
        final(buffer)@ == sse::emptied(old(buffer)@),
        progress(final(s)@, final(out)@) == progress(old(s)@, old(out)@).finish(old(buffer)@),
{
    if let Some(line) = buffer.finish() {
        process_anthropic_sse_line(line.as_str(), s, out);
    }
}

/// The report of a transfer that broke off.
pub fn anthropic_stream_error(error: &str) -> (r: String)
    ensures
        r@ == sse::broken_off("Anthropic SSE stream error: "@, error@),
{
    sse::stream_error("Anthropic SSE stream error: ", error)
}

} // verus!
