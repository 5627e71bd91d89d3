//! What an Anthropic response is read for: its text is shown as text, its thoughts as
//! reasoning, and its calls are made with what was said in their blocks.

use crate::json;
use crate::json::Tree;
use crate::providers::anthropic_stream;
use crate::providers::anthropic_stream::{
    Anth, AnthropicUsage, Block, Delta, Event, Progress,
};
use crate::providers::minimax_laws;
use crate::providers::stream_events;
use crate::providers::tool_args;
use crate::providers::types;
use crate::providers::types::{Chunk, Usage};
use crate::text;
use vstd::prelude::*;

verus! {

/// A response after events, in order.
pub open spec fn after_events(p: Progress, es: Seq<Event>) -> Progress
    decreases es.len(),
{
    if es.len() == 0 {
        p
    } else {
        after_events(p, es.drop_last()).event(es.last())
    }
}

/// The response of which nothing came in yet.
pub open spec fn start() -> Progress {
    Progress {
        state: Anth {
            id: Seq::empty(),
            name: Seq::empty(),
            arguments: Seq::empty(),
            last_was_text: false,
        },
        chunks: Seq::empty(),
    }
}

/// The events end inside a text block.
pub open spec fn is_in_text(es: Seq<Event>) -> bool
    decreases es.len(),
{
    if es.len() == 0 {
        false
    } else {
        match es.last() {
            Event::BlockStart(b) => b is Text,
            Event::BlockStop => false,
            _ => is_in_text(es.drop_last()),
        }
    }
}

/// The text that the model said: that of its text blocks and of what was added to them,
/// with a line break where a block begins inside another one.
pub open spec fn said(es: Seq<Event>) -> Seq<char>
    decreases es.len(),
{
    if es.len() == 0 {
        Seq::empty()
    } else {
        said(es.drop_last()) + match es.last() {
            Event::BlockStart(Block::Text(t)) => if is_in_text(es.drop_last()) {
                seq!['\n'] + t
            } else {
                t
            },
            Event::BlockDelta(Delta::Text(t)) => t,
            _ => Seq::empty(),
        }
    }
}

/// What the model thought: its thinking blocks and what was added to them, and a note for
/// each that was redacted.
pub open spec fn thought(es: Seq<Event>) -> Seq<char>
    decreases es.len(),
{
    if es.len() == 0 {
        Seq::empty()
    } else {
        thought(es.drop_last()) + match es.last() {
            Event::BlockStart(Block::Thinking(t, _)) => t,
            Event::BlockStart(Block::Redacted(_)) => "[Redacted thinking block]"@,
            Event::BlockDelta(Delta::Thinking(t)) => t,
            _ => Seq::empty(),
        }
    }
}

/// Over any events, the text that is shown is exactly what the model said, and the
/// reasoning is exactly what it thought: no thought is ever shown as text.
pub proof fn law_text_and_thoughts_are_told_apart(es: Seq<Event>)
    ensures
        minimax_laws::visible_text(after_events(start(), es).chunks) == said(es),
        minimax_laws::reasoning_text(after_events(start(), es).chunks) == thought(es),
        after_events(start(), es).state.last_was_text == is_in_text(es),
    decreases es.len(),
{
    if es.len() > 0 {
        let p = after_events(start(), es.drop_last());
        law_text_and_thoughts_are_told_apart(es.drop_last());
        let new = anthropic_stream::event_chunks(p.state, es.last());
        minimax_laws::lemma_texts_add(p.chunks, new);
        reveal_strlit("\n");
        assert("\n"@ =~= seq!['\n']);
        if new.len() == 1 {
            assert(new =~= seq![new[0]]);
            minimax_laws::lemma_one(new[0]);
        } else if new.len() == 2 {
            assert(new =~= seq![new[0]] + seq![new[1]]);
            minimax_laws::lemma_one(new[0]);
            minimax_laws::lemma_one(new[1]);
            minimax_laws::lemma_texts_add(seq![new[0]], seq![new[1]]);
        } else {
            assert(new =~= Seq::empty());
        }
        assert(minimax_laws::visible_text(after_events(start(), es).chunks) =~= said(es));
        assert(minimax_laws::reasoning_text(after_events(start(), es).chunks) =~= thought(es));
    }
}

/// The events of pieces of arguments.
pub open spec fn pieces(ps: Seq<Seq<char>>) -> Seq<Event> {
    ps.map_values(|p: Seq<char>| Event::BlockDelta(Delta::Json(p)))
}

/// Pieces of arguments, one after the other.
pub open spec fn whole(ps: Seq<Seq<char>>) -> Seq<char>
    decreases ps.len(),
{
    if ps.len() == 0 {
        Seq::empty()
    } else {
        whole(ps.drop_last()) + ps.last()
    }
}

/// A tool use block is announced when it begins and made into a call when it ends: with
/// the identifier and the name that it began with, and with its arguments as they were
/// said, if they are JSON within the size limit.
pub proof fn law_call_is_made_as_it_was_said(
    p: Progress,
    id: Seq<char>,
    name: Seq<char>,
    ps: Seq<Seq<char>>,
)
    requires
        id.len() > 0,
        name.len() > 0,
        whole(ps).len() > 0,
        text::byte_len(whole(ps)) <= types::MAX_TOOL_ARGUMENT_SIZE,
        json::parsed(whole(ps)) is Some,
    ensures
        ({
            let begun = p.event(Event::BlockStart(Block::ToolUse(id, name)));
            let told = after_events(begun, pieces(ps));
            let done = told.event(Event::BlockStop);
            &&& begun.chunks == p.chunks.push(
                Chunk::ToolCall {
                    call_id: Some(id),
                    function_id: Some(id),
                    name: Some(name),
                    arguments: Some(Seq::empty()),
                    call_signature: None,
                    id: None,
                    signature: None,
                },
            )
            &&& told.chunks == begun.chunks
            &&& done.chunks == told.chunks.push(
                Chunk::ToolCall {
                    call_id: Some(id),
                    function_id: Some(id),
                    name: Some(name),
                    arguments: Some(whole(ps)),
                    call_signature: None,
                    id: None,
                    signature: None,
                },
            )
            &&& done.state == start().state
        }),
{
    let begun = p.event(Event::BlockStart(Block::ToolUse(id, name)));
    lemma_pieces(begun, ps);
    let told = after_events(begun, pieces(ps));
    let done = told.event(Event::BlockStop);
    assert(begun.chunks =~= p.chunks.push(types::call_chunk(id, name, Seq::empty(), None)));
    assert(done.chunks =~= told.chunks.push(types::call_chunk(id, name, whole(ps), None)));
}

proof fn lemma_pieces(p: Progress, ps: Seq<Seq<char>>)
    requires
        p.state.id.len() > 0,
        p.state.name.len() > 0,
        p.state.arguments.len() == 0,
        text::byte_len(whole(ps)) <= types::MAX_TOOL_ARGUMENT_SIZE,
    ensures
        after_events(p, pieces(ps)).chunks == p.chunks,
        after_events(p, pieces(ps)).state == (Anth { arguments: whole(ps), ..p.state }),
    decreases ps.len(),
{
    if ps.len() == 0 {
        assert(p.state.arguments =~= Seq::empty());
    } else {
        let q = ps.drop_last();
        text::lemma_byte_len_add(whole(q), ps.last());
        lemma_pieces(p, q);
        assert(pieces(ps).drop_last() =~= pieces(q));
        assert(pieces(ps).last() == Event::BlockDelta(Delta::Json(ps.last())));
        tool_args::law_fitting_fragment_is_whole(whole(q), ps.last());
        assert(after_events(p, pieces(ps)).chunks =~= p.chunks);
    }
}

/// Token counts are handed on as they were told: those of the start with the input
/// tokens, those of the end with the reason for it and without input tokens. No other
/// event tells of tokens.
pub proof fn law_token_counts_are_handed_on(
    p: Progress,
    u: AnthropicUsage,
    stop: Option<Seq<char>>,
)
    ensures
        ({
            let counts = Usage {
                input_tokens: u.input_tokens,
                output_tokens: u.output_tokens,
                cache_write_tokens: u.cache_creation_input_tokens,
                cache_read_tokens: u.cache_read_input_tokens,
                reasoning_tokens: None,
                thoughts_token_count: None,
                total_cost: None,
                stop_reason: None,
                id: None,
            };
            &&& p.event(Event::Start(u)).chunks == p.chunks.push(Chunk::Usage(counts))
            &&& p.event(Event::MessageDelta(stop, u)).chunks == p.chunks.push(
                Chunk::Usage(Usage { input_tokens: 0, stop_reason: stop, ..counts }),
            )
            &&& p.event(Event::Start(u)).state == p.state
            &&& p.event(Event::MessageDelta(stop, u)).state == p.state
        }),
{
    assert(p.event(Event::Start(u)).chunks =~= p.chunks.push(
        p.event(Event::Start(u)).chunks.last(),
    ));
    assert(p.event(Event::MessageDelta(stop, u)).chunks =~= p.chunks.push(
        p.event(Event::MessageDelta(stop, u)).chunks.last(),
    ));
}

/// Signatures and redacted thoughts go with the reasoning, and an error is reported with
/// its kind and its message. What only keeps the stream going shows nothing.
pub proof fn law_signatures_errors_and_silence(
    p: Progress,
    t: Seq<char>,
    signature: Option<Seq<char>>,
    g: Seq<char>,
    data: Seq<char>,
    kind: Seq<char>,
    message: Seq<char>,
)
    ensures
        p.event(Event::BlockStart(Block::Thinking(t, signature))).chunks == p.chunks.push(
            Chunk::Reasoning {
                reasoning: t,
                details: None,
                signature,
                redacted_data: None,
                id: None,
            },
        ),
        p.event(Event::BlockDelta(Delta::Signature(g))).chunks == p.chunks.push(
            Chunk::Reasoning {
                reasoning: Seq::empty(),
                details: None,
                signature: Some(g),
                redacted_data: None,
                id: None,
            },
        ),
        p.event(Event::BlockStart(Block::Redacted(data))).chunks == p.chunks.push(
            Chunk::Reasoning {
                reasoning: "[Redacted thinking block]"@,
                details: None,
                signature: None,
                redacted_data: Some(data),
                id: None,
            },
        ),
        p.event(Event::Error(kind, message)).chunks == p.chunks.push(
            Chunk::Error("Anthropic API error ("@ + kind + "): "@ + message),
        ),
        p.event(Event::Ping) == p,
        p.event(Event::Stop) == p,
{
    assert(p.event(Event::Ping).chunks =~= p.chunks);
    assert(p.event(Event::Stop).chunks =~= p.chunks);
    assert(p.event(Event::BlockStart(Block::Thinking(t, signature))).chunks =~= p.chunks.push(
        p.event(Event::BlockStart(Block::Thinking(t, signature))).chunks.last(),
    ));
    assert(p.event(Event::BlockDelta(Delta::Signature(g))).chunks =~= p.chunks.push(
        p.event(Event::BlockDelta(Delta::Signature(g))).chunks.last(),
    ));
    assert(p.event(Event::BlockStart(Block::Redacted(data))).chunks =~= p.chunks.push(
        p.event(Event::BlockStart(Block::Redacted(data))).chunks.last(),
    ));
    assert(p.event(Event::Error(kind, message)).chunks =~= p.chunks.push(
        p.event(Event::Error(kind, message)).chunks.last(),
    ));
}

// ---------------------------------------------------------------------------
// Reading
// ---------------------------------------------------------------------------

/// A member that is a text.
pub open spec fn holds_text(t: Tree, key: Seq<char>, s: Seq<char>) -> bool {
    t.get(key) == Some(Tree::Str(s))
}

/// A member that is a number.
pub open spec fn holds_number(t: Tree, key: Seq<char>, n: u32) -> bool {
    t.get(key) == Some(Tree::Int(n as int))
}

proof fn lemma_event_kinds()
    ensures
        "message_start"@ != "message_delta"@,
        "message_start"@.len() == 13,
        "message_delta"@.len() == 13,
        "message_stop"@.len() == 12,
        "content_block_start"@ != "content_block_delta"@,
        "content_block_start"@.len() == 19,
        "content_block_delta"@.len() == 19,
        "content_block_stop"@.len() == 18,
        "ping"@.len() == 4,
        "error"@.len() == 5,
        "thinking"@ != "tool_use"@,
        "thinking"@.len() == 8,
        "redacted_thinking"@.len() == 17,
        "tool_use"@.len() == 8,
        "text"@.len() == 4,
        "thinking_delta"@.len() == 14,
        "signature_delta"@.len() == 15,
        "text_delta"@.len() == 10,
        "input_json_delta"@.len() == 16,
{
    reveal_strlit("message_start");
    reveal_strlit("message_delta");
    reveal_strlit("message_stop");
    reveal_strlit("content_block_start");
    reveal_strlit("content_block_delta");
    reveal_strlit("content_block_stop");
    reveal_strlit("ping");
    reveal_strlit("error");
    reveal_strlit("thinking");
    reveal_strlit("redacted_thinking");
    reveal_strlit("tool_use");
    reveal_strlit("text");
    reveal_strlit("thinking_delta");
    reveal_strlit("signature_delta");
    reveal_strlit("text_delta");
    reveal_strlit("input_json_delta");
    assert("message_start"@[8] == 's');
    assert("message_delta"@[8] == 'd');
    assert("content_block_start"@[14] == 's');
    assert("content_block_delta"@[14] == 'd');
    assert("thinking"@[1] == 'h');
    assert("tool_use"@[1] == 'o');
}

/// What is added to a block is read by its kind: thoughts, signatures, texts and pieces
/// of arguments.
pub proof fn law_deltas_are_read(t: Tree, d: Tree, s: Seq<char>)
    requires
        holds_text(t, "type"@, "content_block_delta"@),
        t.get("delta"@) == Some(d),
    ensures
        holds_text(d, "type"@, "thinking_delta"@) && holds_text(d, "thinking"@, s)
            ==> anthropic_stream::event_of(t) == Some(Event::BlockDelta(Delta::Thinking(s))),
        holds_text(d, "type"@, "signature_delta"@) && holds_text(d, "signature"@, s)
            ==> anthropic_stream::event_of(t) == Some(Event::BlockDelta(Delta::Signature(s))),
        holds_text(d, "type"@, "text_delta"@) && holds_text(d, "text"@, s)
            ==> anthropic_stream::event_of(t) == Some(Event::BlockDelta(Delta::Text(s))),
        holds_text(d, "type"@, "input_json_delta"@) && holds_text(d, "partial_json"@, s)
            ==> anthropic_stream::event_of(t) == Some(Event::BlockDelta(Delta::Json(s))),
{
    lemma_event_kinds();
}

/// Blocks are read by their kind: texts, thoughts with their signature, redacted thoughts
/// and tool uses.
pub proof fn law_blocks_are_read(t: Tree, b: Tree, x: Seq<char>, y: Seq<char>)
    requires
        holds_text(t, "type"@, "content_block_start"@),
        t.get("content_block"@) == Some(b),
    ensures
        holds_text(b, "type"@, "text"@) && holds_text(b, "text"@, x)
            ==> anthropic_stream::event_of(t) == Some(Event::BlockStart(Block::Text(x))),
        holds_text(b, "type"@, "thinking"@) && holds_text(b, "thinking"@, x) && holds_text(
            b,
            "signature"@,
            y,
        ) ==> anthropic_stream::event_of(t) == Some(
            Event::BlockStart(Block::Thinking(x, Some(y))),
        ),
        holds_text(b, "type"@, "thinking"@) && holds_text(b, "thinking"@, x) && b.get(
            "signature"@,
        ) is None ==> anthropic_stream::event_of(t) == Some(
            Event::BlockStart(Block::Thinking(x, None)),
        ),
        holds_text(b, "type"@, "redacted_thinking"@) && holds_text(b, "data"@, x)
            ==> anthropic_stream::event_of(t) == Some(Event::BlockStart(Block::Redacted(x))),
        holds_text(b, "type"@, "tool_use"@) && holds_text(b, "id"@, x) && holds_text(b, "name"@, y)
            ==> anthropic_stream::event_of(t) == Some(Event::BlockStart(Block::ToolUse(x, y))),
{
    lemma_event_kinds();
}

/// The token counts of the start and of the end of a message are read from their members,
/// and so is the reason for its end.
pub proof fn law_token_counts_are_read(
    t: Tree,
    u: Tree,
    input: u32,
    output: u32,
    written: u32,
    read: u32,
    stop: Seq<char>,
)
    requires
        holds_number(u, "input_tokens"@, input),
        holds_number(u, "output_tokens"@, output),
        holds_number(u, "cache_creation_input_tokens"@, written),
        holds_number(u, "cache_read_input_tokens"@, read),
    ensures
        ({
            let counts = AnthropicUsage {
                input_tokens: input,
                output_tokens: output,
                cache_creation_input_tokens: Some(written),
                cache_read_input_tokens: Some(read),
            };
            &&& holds_text(t, "type"@, "message_start"@) && t.get("message"@) is Some && (t.get(
                "message"@,
            )->0).get("usage"@) == Some(u) ==> anthropic_stream::event_of(t) == Some(
                Event::Start(counts),
            )
            &&& holds_text(t, "type"@, "message_delta"@) && t.get("usage"@) == Some(u) && t.get(
                "delta"@,
            ) is Some && holds_text(t.get("delta"@)->0, "stop_reason"@, stop)
                ==> anthropic_stream::event_of(t) == Some(Event::MessageDelta(Some(stop), counts))
        }),
{
    lemma_event_kinds();
}

/// The ends of blocks and messages, pings and errors are read by their kind.
pub proof fn law_other_events_are_read(t: Tree, kind: Seq<char>, message: Seq<char>)
    ensures
        holds_text(t, "type"@, "content_block_stop"@) ==> anthropic_stream::event_of(t) == Some(
            Event::BlockStop,
        ),
        holds_text(t, "type"@, "message_stop"@) ==> anthropic_stream::event_of(t) == Some(
            Event::Stop,
        ),
        holds_text(t, "type"@, "ping"@) ==> anthropic_stream::event_of(t) == Some(Event::Ping),
        holds_text(t, "type"@, "error"@) && t.get("error"@) is Some && holds_text(
            t.get("error"@)->0,
            "type"@,
            kind,
        ) && holds_text(t.get("error"@)->0, "message"@, message) ==> anthropic_stream::event_of(t)
            == Some(Event::Error(kind, message)),
{
    lemma_event_kinds();
}

/// A line of data that is JSON and describes an event does what the event does.
pub proof fn law_lines_tell_events(p: Progress, line: Seq<char>, d: Seq<char>, t: Tree, e: Event)
    requires
        text::trimmed(line) == "data: "@ + d,
        d != "[DONE]"@,
        json::parsed(d) == Some(t),
        anthropic_stream::event_of(t) == Some(e),
    ensures
        p.line(line) == p.event(e),
{
    let l = "data: "@ + d;
    lemma_data_line(d);
}

/// A line of data: what follows `data:` and a space is its payload.
pub proof fn lemma_data_line(d: Seq<char>)
    ensures
        ({
            let l = "data: "@ + d;
            &&& l.len() > 0
            &&& l == "data: [DONE]"@ ==> d == "[DONE]"@
            &&& stream_events::payload(l) == Some(d)
        }),
{
    reveal_strlit("data: ");
    reveal_strlit("data:");
    reveal_strlit(" ");
    reveal_strlit("data: [DONE]");
    reveal_strlit("[DONE]");
    let l = "data: "@ + d;
    assert(l.subrange(0, 5) =~= "data:"@);
    assert(l.skip(5).subrange(0, 1) =~= " "@);
    assert(l.skip(5).skip(1) =~= d);
    if l == "data: [DONE]"@ {
        assert(d =~= "data: [DONE]"@.skip(6));
        assert("data: [DONE]"@.skip(6) =~= "[DONE]"@);
    }
}

} // verus!
