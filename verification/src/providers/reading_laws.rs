//! What reading is for: a reply that says something is understood, and what was read is
//! what is worked with.

use crate::json;
use crate::json::Tree;
use crate::providers::anthropic_laws;
use crate::providers::anthropic_stream;
use crate::providers::anthropic_stream::{
    AnthropicContentBlock, AnthropicContentDelta, AnthropicStreamEvent, Block, Delta,
};
use crate::providers::gemini_stream;
use crate::providers::gemini_stream::{GeminiCandidate, GeminiResponsePart, GeminiStreamChunk};
use crate::providers::minimax_stream;
use crate::providers::minimax_stream::{MinimaxChoice, MinimaxEvent};
use crate::providers::openai_stream;
use crate::providers::openai_stream::{OpenAiChoice, OpenAiStreamChunk};
use crate::providers::sse;
use crate::providers::sse::LineState;
use crate::providers::stream_events;
use crate::providers::stream_events::{FunctionPart, ToolDelta, ToolPart};
use crate::providers::types::{Chunk, CompatModel, Model};
use crate::text;
use vstd::prelude::*;

verus! {

// ---------------------------------------------------------------------------
// Replies that are understood
// ---------------------------------------------------------------------------

/// A list of one item.
proof fn lemma_single(t: Tree)
    ensures
        seq![t].len() == 1,
        seq![t][0] == t,
        seq![t].drop_last() == Seq::<Tree>::empty(),
{
    assert(seq![t].drop_last() =~= Seq::<Tree>::empty());
}

/// A fragment of a call is read from its members.
pub proof fn law_fragments_are_read(
    t: Tree,
    f: Tree,
    typed: bool,
    index: u32,
    id: Seq<char>,
    name: Seq<char>,
    arguments: Seq<char>,
)
    requires
        t is Obj,
        t.get("index"@) == Some(Tree::Int(index as int)),
        anthropic_laws::holds_text(t, "id"@, id),
        t.get("type"@) is None || anthropic_laws::holds_text(t, "type"@, "function"@),
        t.get("function"@) == Some(f),
        f is Obj,
        anthropic_laws::holds_text(f, "name"@, name),
        anthropic_laws::holds_text(f, "arguments"@, arguments),
    ensures
        stream_events::tool_part(t, typed) == Some(
            ToolPart {
                index: index as nat,
                id: Some(id),
                function: Some(FunctionPart { name: Some(name), arguments: Some(arguments) }),
            },
        ),
{
}

/// A fragment that only goes on with the arguments of a call is read as that.
pub proof fn law_further_fragments_are_read(
    t: Tree,
    f: Tree,
    typed: bool,
    index: u32,
    arguments: Seq<char>,
)
    requires
        t is Obj,
        t.get("index"@) == Some(Tree::Int(index as int)),
        t.get("id"@) is None,
        t.get("type"@) is None,
        t.get("function"@) == Some(f),
        f is Obj,
        f.get("name"@) is None,
        anthropic_laws::holds_text(f, "arguments"@, arguments),
    ensures
        stream_events::tool_part(t, typed) == Some(
            ToolPart {
                index: index as nat,
                id: None,
                function: Some(FunctionPart { name: None, arguments: Some(arguments) }),
            },
        ),
{
}

/// An event of an OpenAI endpoint with content, reasoning and a fragment of a call is
/// understood.
pub proof fn law_openai_events_are_understood(
    t: Tree,
    choice: Tree,
    delta: Tree,
    call: Tree,
    id: Seq<char>,
    content: Seq<char>,
    thought: Seq<char>,
    finish: Seq<char>,
)
    requires
        t is Obj,
        anthropic_laws::holds_text(t, "id"@, id),
        t.get("choices"@) == Some(Tree::Arr(seq![choice])),
        t.get("usage"@) is None,
        choice is Obj,
        choice.get("delta"@) == Some(delta),
        anthropic_laws::holds_text(choice, "finish_reason"@, finish),
        delta is Obj,
        anthropic_laws::holds_text(delta, "content"@, content),
        anthropic_laws::holds_text(delta, "reasoning_content"@, thought),
        delta.get("refusal"@) is None,
        delta.get("tool_calls"@) == Some(Tree::Arr(seq![call])),
        stream_events::tool_part(call, false) is Some,
    ensures
        openai_stream::event_of(t) == Some(
            openai_stream::Event {
                id,
                choice: Some(
                    openai_stream::Choice {
                        content: Some(content),
                        reasoning: Some(thought),
                        tools: seq![stream_events::tool_part(call, false)->0],
                        refusal: None,
                        finish: Some(finish),
                    },
                ),
                usage: None,
            },
        ),
{
    lemma_single(choice);
    lemma_single(call);
    assert(stream_events::all_tool_parts(Seq::<Tree>::empty(), false) == Some(
        Seq::<ToolPart>::empty(),
    ));
    assert(stream_events::all_tool_parts(seq![call], false)->0 =~= seq![
        stream_events::tool_part(call, false)->0,
    ]);
    assert(openai_stream::choice_of(choice) is Some);
    assert(openai_stream::all_choices(seq![choice])) by {
        assert forall|i: int| 0 <= i < seq![choice].len() implies openai_stream::choice_of(
            #[trigger] seq![choice][i],
        ) is Some by {
            assert(seq![choice][i] == choice);
        }
    }
}

/// An event of an OpenAI endpoint that holds nothing but a refusal, or nothing but the end,
/// is understood.
pub proof fn law_openai_refusals_are_understood(
    t: Tree,
    choice: Tree,
    delta: Tree,
    id: Seq<char>,
    refusal: Seq<char>,
)
    requires
        t is Obj,
        anthropic_laws::holds_text(t, "id"@, id),
        t.get("choices"@) == Some(Tree::Arr(seq![choice])),
        t.get("usage"@) is None,
        choice is Obj,
        choice.get("delta"@) == Some(delta),
        choice.get("finish_reason"@) is None,
        delta is Obj,
        delta.get("content"@) is None,
        delta.get("reasoning_content"@) is None,
        anthropic_laws::holds_text(delta, "refusal"@, refusal),
        delta.get("tool_calls"@) is None,
    ensures
        openai_stream::event_of(t) == Some(
            openai_stream::Event {
                id,
                choice: Some(
                    openai_stream::Choice {
                        content: None,
                        reasoning: None,
                        tools: Seq::empty(),
                        refusal: Some(refusal),
                        finish: None,
                    },
                ),
                usage: None,
            },
        ),
{
    lemma_single(choice);
    assert(openai_stream::choice_of(choice) is Some);
    assert(openai_stream::all_choices(seq![choice])) by {
        assert forall|i: int| 0 <= i < seq![choice].len() implies openai_stream::choice_of(
            #[trigger] seq![choice][i],
        ) is Some by {
            assert(seq![choice][i] == choice);
        }
    }
}

/// An event of MiniMax with content, reasoning and a fragment of a call is understood.
pub proof fn law_minimax_events_are_understood(
    t: Tree,
    choice: Tree,
    delta: Tree,
    call: Tree,
    id: Seq<char>,
    content: Seq<char>,
    thought: Seq<char>,
    finish: Seq<char>,
)
    requires
        t is Obj,
        anthropic_laws::holds_text(t, "id"@, id),
        t.get("model"@) is None,
        t.get("object"@) is None,
        t.get("created"@) is None,
        t.get("choices"@) == Some(Tree::Arr(seq![choice])),
        t.get("usage"@) is None,
        choice is Obj,
        choice.get("index"@) is None,
        choice.get("delta"@) == Some(delta),
        anthropic_laws::holds_text(choice, "finish_reason"@, finish),
        delta is Obj,
        delta.get("role"@) is None,
        delta.get("name"@) is None,
        anthropic_laws::holds_text(delta, "content"@, content),
        anthropic_laws::holds_text(delta, "reasoning_content"@, thought),
        delta.get("reasoning_details"@) is None,
        delta.get("tool_calls"@) == Some(Tree::Arr(seq![call])),
        stream_events::tool_part(call, true) is Some,
    ensures
        minimax_stream::event_of(t) == Some(
            minimax_stream::Event {
                id,
                choice: Some(
                    minimax_stream::Choice {
                        content: Some(content),
                        tools: seq![stream_events::tool_part(call, true)->0],
                        reasoning: Some(thought),
                        details: Seq::empty(),
                        finish: Some(finish),
                    },
                ),
                usage: None,
            },
        ),
{
    lemma_single(choice);
    lemma_single(call);
    assert(stream_events::all_tool_parts(Seq::<Tree>::empty(), true) == Some(
        Seq::<ToolPart>::empty(),
    ));
    assert(stream_events::all_tool_parts(seq![call], true)->0 =~= seq![
        stream_events::tool_part(call, true)->0,
    ]);
    assert(minimax_stream::choice_of(choice) is Some);
    assert(minimax_stream::all_choices(seq![choice])) by {
        assert forall|i: int| 0 <= i < seq![choice].len() implies minimax_stream::choice_of(
            #[trigger] seq![choice][i],
        ) is Some by {
            assert(seq![choice][i] == choice);
        }
    }
}

// ---------------------------------------------------------------------------
// Lines that are no events, and the last line
// ---------------------------------------------------------------------------

/// A line that is empty, or that is data but no JSON, changes nothing; nor does the mark of
/// the end.
pub proof fn law_other_lines_change_nothing(
    line: Seq<char>,
    d: Seq<char>,
    gemini: gemini_stream::Progress,
    m: Option<Model>,
    openai: openai_stream::Progress,
    c: Option<CompatModel>,
    room: usize,
    anthropic: anthropic_stream::Progress,
)
    requires
        text::trimmed(line).len() == 0 || (text::trimmed(line) == "data: "@ + d && (json::parsed(
            d,
        ) is None || d == "[DONE]"@)),
    ensures
        gemini.line(line, m) == gemini,
        openai.line(line, c, room) == openai,
        anthropic.line(line) == anthropic,
{
    anthropic_laws::lemma_data_line(d);
    lemma_done(d);
}

proof fn lemma_done(d: Seq<char>)
    ensures
        d == "[DONE]"@ ==> "data: "@ + d == "data: [DONE]"@,
{
    reveal_strlit("data: ");
    reveal_strlit("[DONE]");
    reveal_strlit("data: [DONE]");
    assert("data: "@ + "[DONE]"@ =~= "data: [DONE]"@);
}

/// A line of MiniMax that is empty, and the mark of the end, change nothing; one that is
/// data but no JSON is reported.
pub proof fn law_minimax_reports_bad_lines(
    line: Seq<char>,
    d: Seq<char>,
    p: minimax_stream::Progress,
)
    requires
        text::trimmed(line).len() == 0 || text::trimmed(line) == "data: "@ + d,
    ensures
        text::trimmed(line).len() == 0 || d == "[DONE]"@ ==> p.line(line) == p,
        text::trimmed(line).len() > 0 && d != "[DONE]"@ && json::parsed(d) is None ==> p.line(
            line,
        ).state == p.state && p.line(line).chunks.len() == p.chunks.len() + 1 && p.line(
            line,
        ).chunks.drop_last() == p.chunks && p.line(line).chunks.last() is Error,
{
    anthropic_laws::lemma_data_line(d);
    lemma_done(d);
    if text::trimmed(line).len() > 0 {
        reveal_strlit("data: ");
        reveal_strlit("[DONE]");
        let l = "data: "@ + d;
        assert(l[0] == 'd');
        assert("[DONE]"@[0] == '[');
        if d != "[DONE]"@ && json::parsed(d) is None {
            assert(p.line(line).chunks.drop_last() =~= p.chunks);
        }
    }
}

/// Gemini may also send an event without announcing it as data.
pub proof fn law_gemini_takes_plain_events(
    p: gemini_stream::Progress,
    line: Seq<char>,
    t: Tree,
    e: gemini_stream::Event,
    m: Option<Model>,
)
    requires
        text::trimmed(line).len() > 0,
        text::trimmed(line)[0] == '{',
        json::parsed(text::trimmed(line)) == Some(t),
        gemini_stream::event_of(t) == Some(e),
    ensures
        p.line(line, m) == p.event(e, m),
{
    reveal_strlit("data:");
    reveal_strlit("data: [DONE]");
    let l = text::trimmed(line);
    assert("data: [DONE]"@[0] == 'd');
    assert("data:"@[0] == 'd');
    if text::begins(l, "data:"@) {
        assert(l.subrange(0, 5)[0] == l[0]);
    }
}

/// The line that is left at the end of a response is taken in before it ends.
pub proof fn law_the_last_line_is_taken_in(
    s: LineState,
    openai: openai_stream::Progress,
    c: Option<CompatModel>,
    room: usize,
    anthropic: anthropic_stream::Progress,
    minimax: minimax_stream::Progress,
)
    requires
        s.pending.len() > 0,
    ensures
        ({
            let line = sse::lossy(s.pending);
            let none = LineState { pending: Seq::empty(), ..s };
            &&& openai.finish(s, c, room) == openai.line(line, c, room).finish(none, c, room)
            &&& anthropic.finish(s) == anthropic.line(line)
            &&& anthropic.finish(none) == anthropic
            &&& minimax.finish_all(s) == minimax.line(line).finish()
            &&& minimax.finish_all(none) == minimax.finish()
        }),
{
}

/// A line that is too long is reported, once, whatever the provider; what was shown before
/// stays.
pub proof fn law_long_lines_are_reported(
    s: LineState,
    l: Seq<u8>,
    gemini: gemini_stream::Progress,
    m: Option<Model>,
    openai: openai_stream::Progress,
    c: Option<CompatModel>,
    room: usize,
    anthropic: anthropic_stream::Progress,
    minimax: minimax_stream::Progress,
)
    requires
        !s.exceeded,
        !s.skipping,
        forall|j: int| 0 <= j < s.pending.len() ==> s.pending[j] != 10u8,
        forall|j: int| 0 <= j < l.len() ==> l[j] != 10u8,
        s.pending.len() + l.len() >= s.max,
    ensures
        ({
            let report = Chunk::Error(
                "SSE line exceeded maximum length of "@ + text::decimal(s.max) + " bytes"@,
            );
            &&& gemini.bytes(s, l, m).chunks == gemini.chunks.push(report)
            &&& openai.bytes(s, l, c, room).chunks == openai.chunks.push(report)
            &&& anthropic.bytes(s, l).chunks == anthropic.chunks.push(report)
            &&& minimax.bytes(s, l).chunks == minimax.chunks.push(report)
        }),
{
    sse::lemma_no_feed(s.pending + l);
    let lines = s.push(l).1;
    assert(lines =~= Seq::empty());
    assert(sse::decoded(lines) =~= Seq::empty());
}

// ---------------------------------------------------------------------------
// Values
// ---------------------------------------------------------------------------

/// The value of a fragment of a call is what it holds.
pub proof fn law_fragments_are_what_they_hold(d: ToolDelta)
    ensures
        d@.index == d.index,
        d@.id == text::opt(d.id),
        d.function is None <==> d@.function is None,
        d.function is Some ==> (d@.function->0).name == text::opt((d.function->0).name) && (
        d@.function->0).arguments == text::opt((d.function->0).arguments),
{
}

/// The value of an event of Anthropic is what it holds.
pub proof fn law_anthropic_events_are_what_they_hold(
    e: AnthropicStreamEvent,
    d: AnthropicContentDelta,
    b: AnthropicContentBlock,
)
    ensures
        match e {
            AnthropicStreamEvent::MessageStart { usage } => e@ == anthropic_stream::Event::Start(
                usage,
            ),
            AnthropicStreamEvent::MessageDelta { stop_reason, usage } => e@
                == anthropic_stream::Event::MessageDelta(text::opt(stop_reason), usage),
            AnthropicStreamEvent::MessageStop => e@ == anthropic_stream::Event::Stop,
            AnthropicStreamEvent::ContentBlockStart { content_block } => e@
                == anthropic_stream::Event::BlockStart(content_block@),
            AnthropicStreamEvent::ContentBlockDelta { delta } => e@
                == anthropic_stream::Event::BlockDelta(delta@),
            AnthropicStreamEvent::ContentBlockStop => e@ == anthropic_stream::Event::BlockStop,
            AnthropicStreamEvent::Ping => e@ == anthropic_stream::Event::Ping,
            AnthropicStreamEvent::Error { error_type, message } => e@
                == anthropic_stream::Event::Error(error_type@, message@),
        },
        match d {
            AnthropicContentDelta::ThinkingDelta { thinking } => d@ == Delta::Thinking(thinking@),
            AnthropicContentDelta::SignatureDelta { signature } => d@ == Delta::Signature(
                signature@,
            ),
            AnthropicContentDelta::TextDelta { text } => d@ == Delta::Text(text@),
            AnthropicContentDelta::InputJsonDelta { partial_json } => d@ == Delta::Json(
                partial_json@,
            ),
        },
        match b {
            AnthropicContentBlock::Thinking { thinking, signature } => b@ == Block::Thinking(
                thinking@,
                text::opt(signature),
            ),
            AnthropicContentBlock::RedactedThinking { data } => b@ == Block::Redacted(data@),
            AnthropicContentBlock::ToolUse { id, name } => b@ == Block::ToolUse(id@, name@),
            AnthropicContentBlock::Text { text } => b@ == Block::Text(text@),
        },
{
}

/// The value of an event of an OpenAI endpoint is what it holds.
pub proof fn law_openai_events_are_what_they_hold(e: OpenAiStreamChunk, c: OpenAiChoice)
    ensures
        e@.id == e.id@,
        e@.usage == e.usage,
        e.choice is None <==> e@.choice is None,
        e.choice is Some ==> e@.choice == Some((e.choice->0)@),
        c@.content == text::opt(c.content),
        c@.reasoning == text::opt(c.reasoning_content),
        c@.refusal == text::opt(c.refusal),
        c@.finish == text::opt(c.finish_reason),
        c@.tools.len() == c.tool_calls@.len(),
        forall|i: int|
            0 <= i < c.tool_calls@.len() ==> c@.tools[i] == (#[trigger] c.tool_calls@[i])@,
{
}

/// The value of an event of MiniMax is what it holds.
pub proof fn law_minimax_events_are_what_they_hold(e: MinimaxEvent, c: MinimaxChoice)
    ensures
        e@.id == e.id@,
        e@.usage == e.usage,
        e.choice is None <==> e@.choice is None,
        e.choice is Some ==> e@.choice == Some((e.choice->0)@),
        c@.content == text::opt(c.content),
        c@.reasoning == text::opt(c.reasoning_content),
        c@.details == text::texts(c.reasoning_details@),
        c@.finish == text::opt(c.finish_reason),
        c@.tools.len() == c.tool_calls@.len(),
        forall|i: int|
            0 <= i < c.tool_calls@.len() ==> c@.tools[i] == (#[trigger] c.tool_calls@[i])@,
{
}

/// The value of an event of Gemini is what it holds.
pub proof fn law_gemini_events_are_what_they_hold(
    e: GeminiStreamChunk,
    c: GeminiCandidate,
    p: GeminiResponsePart,
)
    ensures
        e@.id == text::opt(e.response_id),
        e@.usage == e.usage_metadata,
        e@.candidates.len() == e.candidates@.len(),
        forall|i: int|
            0 <= i < e.candidates@.len() ==> e@.candidates[i] == (#[trigger] e.candidates@[i])@,
        c@.finish == text::opt(c.finish_reason),
        c.grounding_metadata is Some ==> c@.grounding == Some((c.grounding_metadata->0)@),
        c@.parts.len() == c.parts@.len(),
        forall|i: int| 0 <= i < c.parts@.len() ==> c@.parts[i] == (#[trigger] c.parts@[i])@,
        p@.text == text::opt(p.text),
        p@.thought == p.thought,
        p@.signature == text::opt(p.thought_signature),
        p.function_call is None <==> p@.call is None,
        p.function_call is Some ==> (p@.call->0).name == (p.function_call->0).name@ && (
        p@.call->0).id == text::opt((p.function_call->0).id),
        p.function_call is Some && (p.function_call->0).args is Some ==> (p@.call->0).args == Some(
            ((p.function_call->0).args->0)@,
        ),
{
}

} // verus!
