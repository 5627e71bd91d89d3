//! What a response of OpenAI or of a compatible endpoint is read for: its text is shown,
//! its calls are assembled by their index and made, and its tokens are counted and paid.

use crate::json;
use crate::json::Tree;
use crate::providers::anthropic_laws;
use crate::providers::calls;
use crate::providers::calls::Call;
use crate::providers::minimax_laws;
use crate::providers::openai_stream;
use crate::providers::openai_stream::{Event, OpenAiUsage, Progress};
use crate::providers::reasoning;
use crate::providers::sse::LineState;
use crate::providers::stream_events;
use crate::providers::stream_events::ToolPart;
use crate::providers::tool_args;
use crate::providers::types;
use crate::providers::types::{Chunk, CompatModel};
use crate::text;
use vstd::prelude::*;

verus! {

// ---------------------------------------------------------------------------
// Calls
// ---------------------------------------------------------------------------

/// What a fragment says of the arguments of its call.
pub open spec fn told_arguments(p: ToolPart) -> Seq<char> {
    match p.function {
        Some(f) => match f.arguments {
            Some(t) => t,
            None => Seq::empty(),
        },
        None => Seq::empty(),
    }
}

/// What a fragment says of the name of its call.
pub open spec fn told_name(p: ToolPart) -> Seq<char> {
    match p.function {
        Some(f) => match f.name {
            Some(t) => t,
            None => Seq::empty(),
        },
        None => Seq::empty(),
    }
}

/// What a fragment says of the identifier of its call.
pub open spec fn told_id(p: ToolPart) -> Seq<char> {
    match p.id {
        Some(t) => t,
        None => Seq::empty(),
    }
}

/// A fragment changes only the call of its own index. There its arguments are added at
/// the end, and an identifier or a name that it gives takes the place of the old one.
pub proof fn law_fragments_reach_their_own_call(table: Seq<Call>, p: ToolPart, other: nat)
    requires
        calls::in_order(table),
    ensures
        ({
            let old_call = calls::call_at(table, p.index);
            let new_call = calls::call_at(openai_stream::with_part(table, p), p.index);
            &&& other != p.index ==> calls::call_at(openai_stream::with_part(table, p), other)
                == calls::call_at(table, other)
            &&& new_call.index == p.index
            &&& new_call.completed == old_call.completed
            &&& new_call.started == old_call.started
            &&& text::byte_len(old_call.arguments) + text::byte_len(told_arguments(p))
                <= types::MAX_TOOL_ARGUMENT_SIZE ==> new_call.arguments == old_call.arguments
                + told_arguments(p)
            &&& told_id(p).len() == 0 ==> new_call.id == old_call.id
            &&& told_id(p).len() > 0 ==> new_call.id == told_id(p)
            &&& told_name(p).len() == 0 ==> new_call.name == old_call.name
            &&& told_name(p).len() > 0 && openai_stream::qwen_name(told_name(p)) is None
                ==> new_call.name == told_name(p)
        }),
{
    calls::lemma_rank(table, p.index);
    let c0 = calls::call_at(table, p.index);
    lemma_call_fits(table, p.index);
    assert(c0.arguments + Seq::<char>::empty() =~= c0.arguments);
    let a = match p.id {
        Some(id) => if id.len() > 0 {
            calls::with_call(table, Call { id, ..c0 })
        } else {
            table
        },
        None => table,
    };
    if told_id(p).len() > 0 {
        lemma_put(table, Call { id: told_id(p), ..c0 }, other);
    }
    calls::lemma_rank(a, p.index);
    lemma_call_fits(a, p.index);
    let c1 = calls::call_at(a, p.index);
    if let Some(f) = p.function {
        let b = match f.name {
            Some(n) => if n.len() > 0 {
                calls::with_call(a, Call { name: openai_stream::plain_name(n), ..c1 })
            } else {
                a
            },
            None => a,
        };
        if told_name(p).len() > 0 {
            lemma_put(a, Call { name: openai_stream::plain_name(told_name(p)), ..c1 }, other);
        }
        calls::lemma_rank(b, p.index);
        lemma_call_fits(b, p.index);
        let c2 = calls::call_at(b, p.index);
        if told_arguments(p).len() > 0 {
            let t = told_arguments(p);
            tool_args::law_arguments_stay_within_limit(c2.arguments, t);
            lemma_put(b, Call { arguments: tool_args::appended(c2.arguments, t), ..c2 }, other);
            if text::byte_len(c0.arguments) + text::byte_len(t) <= types::MAX_TOOL_ARGUMENT_SIZE {
                tool_args::law_fitting_fragment_is_whole(c2.arguments, t);
            }
        } else {
            assert(told_arguments(p) =~= Seq::empty());
        }
    }
}

pub proof fn lemma_call_fits(table: Seq<Call>, index: nat)
    requires
        calls::in_order(table),
    ensures
        text::byte_len(calls::call_at(table, index).arguments) <= types::MAX_TOOL_ARGUMENT_SIZE,
        calls::call_at(table, index).index == index,
{
    calls::lemma_rank(table, index);
    assert(text::byte_len(Seq::<char>::empty()) == 0);
}

pub proof fn lemma_put(table: Seq<Call>, c: Call, other: nat)
    requires
        calls::in_order(table),
        text::byte_len(c.arguments) <= types::MAX_TOOL_ARGUMENT_SIZE,
    ensures
        calls::in_order(calls::with_call(table, c)),
        calls::call_at(calls::with_call(table, c), c.index) == c,
        other != c.index ==> calls::call_at(calls::with_call(table, c), other) == calls::call_at(
            table,
            other,
        ),
{
    calls::law_with_call(table, c);
    if other != c.index {
        calls::law_others_stay(table, c, other);
    }
}

/// A call is announced with its own identifier and name, as soon as it has both and there
/// is room, and it is what its fragment makes it. Nothing else is shown.
pub proof fn law_announcement_names_the_call(p: Progress, part: ToolPart, room: usize)
    requires
        calls::in_order(p.state.calls),
        !calls::call_at(p.state.calls, part.index).completed,
    ensures
        ({
            let q = p.tool(part, room);
            let c = calls::call_at(openai_stream::with_part(p.state.calls, part), part.index);
            let now = calls::call_at(q.state.calls, part.index);
            &&& now.id == c.id
            &&& now.name == c.name
            &&& now.arguments == c.arguments
            &&& q.state.emitted == p.state.emitted
            &&& q.state.last_stop == p.state.last_stop
            &&& q.state.usage_sent == p.state.usage_sent
            &&& q.chunks == p.chunks || q.chunks == p.chunks.push(
                Chunk::Started { call_id: c.id, name: c.name },
            )
            &&& now.started && !c.started ==> q.chunks == p.chunks.push(
                Chunk::Started { call_id: c.id, name: c.name },
            ) && c.id.len() > 0 && c.name.len() > 0
            &&& now.started == c.started ==> q.chunks == p.chunks
        }),
{
    openai_stream::law_part_keeps_order(p.state.calls, part);
    let table = openai_stream::with_part(p.state.calls, part);
    lemma_call_fits(table, part.index);
    let c = calls::call_at(table, part.index);
    lemma_put(table, Call { started: true, ..c }, part.index);
}

/// Where the model ended with tool calls, every call that is complete is made, in the order
/// of the indices; for any other reason none is made yet. The reason is remembered.
pub proof fn law_calls_are_made_at_their_end(p: Progress, reason: Seq<char>, id: Seq<char>)
    ensures
        p.end(None, id) == p,
        p.end(Some(reason), id).state.last_stop == Some(reason),
        reason == "tool_calls"@ ==> p.end(Some(reason), id).chunks == p.chunks
            + calls::ready_chunks(p.state.calls, Some(id)) && p.end(Some(reason), id).state.calls
            == calls::handed_out(p.state.calls),
        reason != "tool_calls"@ ==> p.end(Some(reason), id).chunks == p.chunks && p.end(
            Some(reason),
            id,
        ).state.calls == p.state.calls,
{
}

/// At the end of a response, the calls that are left are made, unless a filter ended it, and
/// token counts are told if none were.
pub proof fn law_the_end_makes_what_is_left(p: Progress, m: Option<CompatModel>, room: usize)
    ensures
        ({
            let empty = LineState {
                pending: Seq::empty(),
                max: 1,
                exceeded: false,
                skipping: false,
            };
            let q = p.finish(empty, m, room);
            let made = if p.state.last_stop == Some("content_filter"@) {
                Seq::empty()
            } else {
                calls::ready_chunks(p.state.calls, None)
            };
            if p.state.usage_sent {
                q.chunks == p.chunks + made
            } else {
                &&& q.chunks.len() == p.chunks.len() + made.len() + 1
                &&& q.chunks.drop_last() == p.chunks + made
                &&& q.chunks.last() matches Chunk::Usage(u) && u.input_tokens == 0
                    && u.output_tokens == 0 && u.stop_reason == p.state.last_stop
            }
        }),
{
    let empty = LineState {
        pending: Seq::empty(),
        max: 1,
        exceeded: false,
        skipping: false,
    };
    let q = p.finish(empty, m, room);
    assert(p.chunks + Seq::<Chunk>::empty() =~= p.chunks);
    if !p.state.usage_sent {
        let b = if p.state.last_stop == Some("content_filter"@) {
            p
        } else {
            p.hand_out(None)
        };
        assert(q.chunks.drop_last() =~= b.chunks);
    }
}

// ---------------------------------------------------------------------------
// Text and reasoning
// ---------------------------------------------------------------------------

/// A response after events, in order.
pub open spec fn after_events(
    p: Progress,
    es: Seq<Event>,
    m: Option<CompatModel>,
    room: usize,
) -> Progress
    decreases es.len(),
{
    if es.len() == 0 {
        p
    } else {
        after_events(p, es.drop_last(), m, room).event(es.last(), m, room)
    }
}

/// The response of which nothing came in yet.
pub open spec fn start() -> Progress {
    Progress { state: openai_stream::fresh_state(), chunks: Seq::empty() }
}

/// The content of the choices of events, joined.
pub open spec fn said(es: Seq<Event>) -> Seq<char>
    decreases es.len(),
{
    if es.len() == 0 {
        Seq::empty()
    } else {
        said(es.drop_last()) + match es.last().choice {
            Some(c) => match c.content {
                Some(t) => t,
                None => Seq::empty(),
            },
            None => Seq::empty(),
        }
    }
}

/// Over any events, the text that is shown is exactly the content of their choices, and the
/// reasoning that is shown is exactly what is remembered as emitted.
pub proof fn law_content_is_shown(es: Seq<Event>, m: Option<CompatModel>, room: usize)
    ensures
        minimax_laws::visible_text(after_events(start(), es, m, room).chunks) == said(es),
        minimax_laws::reasoning_text(after_events(start(), es, m, room).chunks) == after_events(
            start(),
            es,
            m,
            room,
        ).state.emitted,
    decreases es.len(),
{
    if es.len() > 0 {
        let p = after_events(start(), es.drop_last(), m, room);
        law_content_is_shown(es.drop_last(), m, room);
        lemma_event_shows(p, es.last(), m, room);
    }
}

/// What an event adds to the text and to the reasoning.
pub open spec fn adds(p: Progress, q: Progress, t: Seq<char>, r: Seq<char>) -> bool {
    &&& minimax_laws::visible_text(q.chunks) == minimax_laws::visible_text(p.chunks) + t
    &&& minimax_laws::reasoning_text(q.chunks) == minimax_laws::reasoning_text(p.chunks) + r
    &&& q.state.emitted == p.state.emitted + r
}

proof fn lemma_adds_nothing(p: Progress, q: Progress, new: Seq<Chunk>)
    requires
        q.chunks == p.chunks + new,
        q.state.emitted == p.state.emitted,
        forall|i: int|
            0 <= i < new.len() ==> !(#[trigger] new[i] is Text) && !(new[i] is Reasoning),
    ensures
        adds(p, q, Seq::empty(), Seq::empty()),
{
    minimax_laws::lemma_texts_add(p.chunks, new);
    lemma_silent(new);
    assert(minimax_laws::visible_text(q.chunks) =~= minimax_laws::visible_text(p.chunks)
        + Seq::<char>::empty());
    assert(minimax_laws::reasoning_text(q.chunks) =~= minimax_laws::reasoning_text(p.chunks)
        + Seq::<char>::empty());
    assert(q.state.emitted =~= p.state.emitted + Seq::<char>::empty());
}

pub proof fn lemma_silent(new: Seq<Chunk>)
    requires
        forall|i: int|
            0 <= i < new.len() ==> !(#[trigger] new[i] is Text) && !(new[i] is Reasoning),
    ensures
        minimax_laws::visible_text(new) == Seq::<char>::empty(),
        minimax_laws::reasoning_text(new) == Seq::<char>::empty(),
    decreases new.len(),
{
    if new.len() > 0 {
        let q = new.drop_last();
        assert forall|i: int| 0 <= i < q.len() implies !(#[trigger] q[i] is Text) && !(
        q[i] is Reasoning) by {
            assert(!(new[i] is Text));
        }
        lemma_silent(q);
        assert(!(new[new.len() - 1] is Text));
        assert(minimax_laws::visible_text(new) =~= Seq::empty());
        assert(minimax_laws::reasoning_text(new) =~= Seq::empty());
    }
}

proof fn lemma_tools_are_silent(p: Progress, parts: Seq<ToolPart>, room: usize)
    ensures
        adds(p, p.tools(parts, room), Seq::empty(), Seq::empty()),
    decreases parts.len(),
{
    if parts.len() == 0 {
        assert(p.chunks + Seq::<Chunk>::empty() =~= p.chunks);
        lemma_adds_nothing(p, p, Seq::empty());
    } else {
        let a = p.tools(parts.drop_last(), room);
        let q = a.tool(parts.last(), room);
        lemma_tools_are_silent(p, parts.drop_last(), room);
        assert(a.chunks + Seq::<Chunk>::empty() =~= a.chunks);
        if q.chunks == a.chunks {
            lemma_adds_nothing(a, q, Seq::empty());
        } else {
            let c = q.chunks.last();
            assert(q.chunks =~= a.chunks + seq![c]);
            lemma_adds_nothing(a, q, seq![c]);
        }
        assert(adds(p, q, Seq::empty(), Seq::empty())) by {
            assert(minimax_laws::visible_text(p.chunks) + Seq::<char>::empty() + Seq::<
                char,
            >::empty() =~= minimax_laws::visible_text(p.chunks) + Seq::<char>::empty());
            assert(minimax_laws::reasoning_text(p.chunks) + Seq::<char>::empty() + Seq::<
                char,
            >::empty() =~= minimax_laws::reasoning_text(p.chunks) + Seq::<char>::empty());
            assert(p.state.emitted + Seq::<char>::empty() + Seq::<char>::empty()
                =~= p.state.emitted + Seq::<char>::empty());
        }
    }
}

proof fn lemma_ready_chunks_are_calls(table: Seq<Call>, id: Option<Seq<char>>)
    ensures
        forall|i: int|
            0 <= i < calls::ready_chunks(table, id).len() ==> (#[trigger] calls::ready_chunks(
                table,
                id,
            )[i]) is ToolCall,
    decreases table.len(),
{
    if table.len() > 0 {
        lemma_ready_chunks_are_calls(table.drop_last(), id);
    }
}

proof fn lemma_event_shows(p: Progress, e: Event, m: Option<CompatModel>, room: usize)
    ensures
        ({
            let q = p.event(e, m, room);
            let t = match e.choice {
                Some(c) => match c.content {
                    Some(t) => t,
                    None => Seq::empty(),
                },
                None => Seq::empty(),
            };
            &&& minimax_laws::visible_text(q.chunks) == minimax_laws::visible_text(p.chunks) + t
            &&& minimax_laws::reasoning_text(p.chunks) == p.state.emitted
                ==> minimax_laws::reasoning_text(q.chunks) == q.state.emitted
        }),
{
    let base = match e.choice {
        Some(c) => p.choice(c, e.id, room),
        None => p,
    };
    if let Some(c) = e.choice {
        let a = p.text(c.content, e.id);
        let b = a.reason(c.reasoning, e.id);
        let d = b.refuse(c.refusal);
        let f = d.tools(c.tools, room);
        let g = f.end(c.finish, e.id);
        let t = match c.content {
            Some(t) => t,
            None => Seq::empty(),
        };
        if a.chunks != p.chunks {
            minimax_laws::lemma_one(a.chunks.last());
            minimax_laws::lemma_texts_add(p.chunks, seq![a.chunks.last()]);
            assert(a.chunks =~= p.chunks + seq![a.chunks.last()]);
        } else {
            assert(t.len() == 0) by {
                if t.len() > 0 {
                    assert(p.chunks.push(types::text_chunk(t, Some(e.id))).len() == p.chunks.len()
                        + 1);
                }
            }
            assert(t =~= Seq::empty());
        }
        assert(minimax_laws::visible_text(a.chunks) =~= minimax_laws::visible_text(p.chunks) + t);
        assert(minimax_laws::reasoning_text(a.chunks) =~= minimax_laws::reasoning_text(p.chunks));
        if let Some(r) = c.reasoning {
            let new = reasoning::fresh(a.state.emitted, r);
            if new.len() > 0 {
                let k = types::reasoning_chunk(new, Some(e.id));
                minimax_laws::lemma_one(k);
                minimax_laws::lemma_texts_add(a.chunks, seq![k]);
                assert(b.chunks =~= a.chunks + seq![k]);
                assert(minimax_laws::visible_text(b.chunks) =~= minimax_laws::visible_text(
                    a.chunks,
                ));
            }
        }
        if d.chunks != b.chunks {
            assert(d.chunks =~= b.chunks + seq![d.chunks.last()]);
            lemma_adds_nothing(b, d, seq![d.chunks.last()]);
        }
        assert(minimax_laws::visible_text(d.chunks) =~= minimax_laws::visible_text(b.chunks));
        assert(minimax_laws::reasoning_text(d.chunks) =~= minimax_laws::reasoning_text(b.chunks));
        lemma_tools_are_silent(d, c.tools, room);
        assert(minimax_laws::visible_text(f.chunks) =~= minimax_laws::visible_text(d.chunks));
        assert(minimax_laws::reasoning_text(f.chunks) =~= minimax_laws::reasoning_text(d.chunks));
        assert(f.state.emitted =~= d.state.emitted);
        lemma_ready_chunks_are_calls(f.state.calls, Some(e.id));
        lemma_silent(calls::ready_chunks(f.state.calls, Some(e.id)));
        minimax_laws::lemma_texts_add(
            f.chunks,
            calls::ready_chunks(f.state.calls, Some(e.id)),
        );
        assert(minimax_laws::visible_text(g.chunks) =~= minimax_laws::visible_text(f.chunks));
        assert(minimax_laws::reasoning_text(g.chunks) =~= minimax_laws::reasoning_text(f.chunks));
    } else {
        assert(minimax_laws::visible_text(p.chunks) + Seq::<char>::empty()
            =~= minimax_laws::visible_text(p.chunks));
    }
    if let Some(u) = e.usage {
        let q = p.event(e, m, room);
        let k = q.chunks.last();
        assert(q.chunks =~= base.chunks + seq![k]);
        lemma_adds_nothing(
            base,
            Progress { state: base.state, chunks: q.chunks },
            seq![k],
        );
        assert(minimax_laws::visible_text(q.chunks) =~= minimax_laws::visible_text(base.chunks));
        assert(minimax_laws::reasoning_text(q.chunks) =~= minimax_laws::reasoning_text(
            base.chunks,
        ));
    }
}

/// A reasoning delta is shown whole, but for a part that repeats the end of what was shown:
/// what was emitted grows, and then ends with the delta.
pub proof fn law_reasoning_is_shown(p: Progress, d: Seq<char>, id: Seq<char>)
    ensures
        ({
            let q = p.reason(Some(d), id);
            &&& text::begins(q.state.emitted, p.state.emitted)
            &&& text::ends(q.state.emitted, d)
            &&& q.state.emitted.len() > p.state.emitted.len() ==> q.chunks == p.chunks.push(
                Chunk::Reasoning {
                    reasoning: q.state.emitted.skip(p.state.emitted.len() as int),
                    details: None,
                    signature: None,
                    redacted_data: None,
                    id: Some(id),
                },
            )
            &&& q.state.emitted.len() == p.state.emitted.len() ==> q == p
            &&& reasoning::overlap(p.state.emitted, d) == 0 ==> q.state.emitted == p.state.emitted
                + d
        }),
{
    let e = p.state.emitted;
    let q = p.reason(Some(d), id);
    reasoning::law_overlap_is_longest(e, d);
    reasoning::law_fresh_completes_delta(e, d);
    let new = reasoning::fresh(e, d);
    let k = reasoning::overlap(e, d);
    if new.len() == 0 {
        assert(e + new =~= e);
    }
    assert(q.state.emitted =~= e + new);
    assert(q.state.emitted.subrange(0, e.len() as int) =~= e);
    assert(q.state.emitted.skip(e.len() as int) =~= new);
    assert(q.state.emitted.subrange(
        q.state.emitted.len() - d.len(),
        q.state.emitted.len() as int,
    ) =~= (e + new).skip(e.len() - k));
    if k == 0 {
        assert(new =~= d);
    }
}

/// Content comes as text of the response, and a refusal as an error that repeats it.
pub proof fn law_content_and_refusals(p: Progress, s: Seq<char>, id: Seq<char>)
    requires
        s.len() > 0,
    ensures
        p.text(Some(s), id).chunks == p.chunks.push(
            Chunk::Text { text: s, id: Some(id), signature: None },
        ),
        p.text(Some(s), id).state == p.state,
        p.refuse(Some(s)).chunks == p.chunks.push(Chunk::Error("OpenAI model refused: "@ + s)),
        p.refuse(Some(s)).state == p.state,
{
}

// ---------------------------------------------------------------------------
// Tokens and their cost
// ---------------------------------------------------------------------------

/// The prices of a model: of input, output, tokens read from a cache and written to it.
pub open spec fn has_prices(m: CompatModel, i: u64, o: u64, r: u64, w: u64) -> bool {
    &&& m.base.input_price == Some(i)
    &&& m.base.output_price == Some(o)
    &&& m.base.cache_reads_price == Some(r)
    &&& m.base.cache_writes_price == Some(w)
}

/// What a response costs.
pub open spec fn cost(u: OpenAiUsage, m: CompatModel) -> int {
    openai_stream::response_cost(u, Some(m))->0 as int
}

/// Token counts.
pub open spec fn counts(prompt: u32, completion: u32, cached: u32, miss: u32) -> OpenAiUsage {
    OpenAiUsage {
        prompt_tokens: prompt,
        completion_tokens: completion,
        cached_tokens: Some(cached),
        reasoning_tokens: None,
        prompt_cache_miss_tokens: Some(miss),
    }
}

/// Nothing costs nothing, and each further token costs its own price: of output, of input,
/// of a token written to the cache, or, for an input token that was read from the cache,
/// the price of reading it and not that of input.
pub proof fn law_each_token_is_paid_once(
    m: CompatModel,
    i: u64,
    o: u64,
    r: u64,
    w: u64,
    prompt: u32,
    completion: u32,
    cached: u32,
    miss: u32,
)
    requires
        has_prices(m, i, o, r, w),
        cached <= prompt < u32::MAX,
        completion < u32::MAX,
        miss < u32::MAX,
    ensures
        cost(counts(0, 0, 0, 0), m) == 0,
        cost(counts(prompt, (completion + 1) as u32, cached, miss), m) == cost(
            counts(prompt, completion, cached, miss),
            m,
        ) + o,
        cost(counts((prompt + 1) as u32, completion, cached, miss), m) == cost(
            counts(prompt, completion, cached, miss),
            m,
        ) + i,
        cost(counts((prompt + 1) as u32, completion, (cached + 1) as u32, miss), m) == cost(
            counts(prompt, completion, cached, miss),
            m,
        ) + r,
        cost(counts(prompt, completion, cached, (miss + 1) as u32), m) == cost(
            counts(prompt, completion, cached, miss),
            m,
        ) + w,
{
    lemma_cost(m, i, o, r, w, 0, 0, 0, 0);
    lemma_cost(m, i, o, r, w, prompt, completion, cached, miss);
    lemma_cost(m, i, o, r, w, prompt, (completion + 1) as u32, cached, miss);
    lemma_cost(m, i, o, r, w, (prompt + 1) as u32, completion, cached, miss);
    lemma_cost(m, i, o, r, w, (prompt + 1) as u32, completion, (cached + 1) as u32, miss);
    lemma_cost(m, i, o, r, w, prompt, completion, cached, (miss + 1) as u32);
    let a = prompt - cached;
    assert(i * (a + 1) == i * a + i) by (nonlinear_arith);
    assert(o * (completion + 1) == o * completion + o) by (nonlinear_arith);
    assert(r * (cached + 1) == r * cached + r) by (nonlinear_arith);
    assert(w * (miss + 1) == w * miss + w) by (nonlinear_arith);
    assert(prompt + 1 - cached == a + 1);
    assert(i * 0 == 0 && o * 0 == 0 && r * 0 == 0 && w * 0 == 0);
}

proof fn lemma_cost(
    m: CompatModel,
    i: u64,
    o: u64,
    r: u64,
    w: u64,
    prompt: u32,
    completion: u32,
    cached: u32,
    miss: u32,
)
    requires
        has_prices(m, i, o, r, w),
        cached <= prompt,
    ensures
        cost(counts(prompt, completion, cached, miss), m) == i * (prompt - cached) + o * completion
            + r * cached + w * miss,
{
    let a = prompt - cached;
    lemma_product(i as int, a);
    lemma_product(o as int, completion as int);
    lemma_product(r as int, cached as int);
    lemma_product(w as int, miss as int);
}

pub proof fn lemma_product(price: int, n: int)
    requires
        0 <= price <= u64::MAX,
        0 <= n <= u32::MAX,
    ensures
        0 <= price * n <= 0x1_0000_0000_0000_0000_0000_0000,
{
    assert(0 <= price * n <= 0xffff_ffff_ffff_ffff * 0xffff_ffff) by (nonlinear_arith)
        requires
            0 <= price <= 0xffff_ffff_ffff_ffff,
            0 <= n <= 0xffff_ffff,
    ;
}

/// Token counts are handed on: the input tokens that were not read from a cache and those
/// that were make up the input, and the output, the reasoning and the tokens written to the
/// cache are as they were told. Without both prices there is no cost.
pub proof fn law_token_counts_are_handed_on(
    u: OpenAiUsage,
    id: Option<Seq<char>>,
    stop: Option<Seq<char>>,
    m: Option<CompatModel>,
)
    requires
        u.cached_tokens is Some ==> u.cached_tokens->0 <= u.prompt_tokens,
    ensures
        ({
            let v = openai_stream::usage_value(u, id, stop, m);
            &&& v.cache_read_tokens is Some
            &&& v.input_tokens + v.cache_read_tokens->0 == u.prompt_tokens
            &&& u.cached_tokens is Some ==> v.cache_read_tokens == u.cached_tokens
            &&& u.cached_tokens is None ==> v.cache_read_tokens == Some(0u32)
            &&& v.output_tokens == u.completion_tokens
            &&& v.reasoning_tokens == u.reasoning_tokens
            &&& v.cache_write_tokens == u.prompt_cache_miss_tokens
            &&& v.stop_reason == stop
            &&& v.id == id
            &&& m is None ==> v.total_cost is None
            &&& m is Some && (m->0.base.input_price is None || m->0.base.output_price is None)
                ==> v.total_cost is None
            &&& m is Some && m->0.base.input_price is Some && m->0.base.output_price is Some
                ==> v.total_cost is Some
        }),
{
}

/// An event with token counts shows them once, after everything else, with the reason for
/// the end, and they count as sent.
pub proof fn law_event_shows_its_counts(p: Progress, e: Event, m: Option<CompatModel>, room: usize)
    requires
        e.usage is Some,
    ensures
        ({
            let q = p.event(e, m, room);
            let without = p.event(Event { usage: None, ..e }, m, room);
            &&& q.state.usage_sent
            &&& q.chunks.len() == without.chunks.len() + 1
            &&& q.chunks.drop_last() == without.chunks
            &&& q.chunks.last() matches Chunk::Usage(v) && v.output_tokens
                == e.usage->0.completion_tokens && v.stop_reason == without.state.last_stop && v.id
                == Some(e.id) && v.total_cost == openai_stream::response_cost(e.usage->0, m)
        }),
{
    let q = p.event(e, m, room);
    let without = p.event(Event { usage: None, ..e }, m, room);
    assert(q.chunks.drop_last() =~= without.chunks);
}

// ---------------------------------------------------------------------------
// Reading
// ---------------------------------------------------------------------------

/// The member is a text, or is missing or null.
pub open spec fn tells(t: Tree, key: Seq<char>, value: Option<Seq<char>>) -> bool {
    match t.get(key) {
        Some(Tree::Str(s)) => value == Some(s),
        Some(Tree::Null) => value is None,
        None => value is None,
        _ => false,
    }
}

/// What an event tells is what its members hold: the identifier, and of the first choice the
/// content, the reasoning, the refusal, the reason for its end and the fragments of calls.
pub proof fn law_events_are_read(t: Tree)
    requires
        t is Obj,
        openai_stream::event_of(t) is Some,
    ensures
        ({
            let e = openai_stream::event_of(t)->0;
            let choices = t.get("choices"@);
            &&& t.get("id"@) == Some(Tree::Str(e.id))
            &&& choices is Some && choices->0 is Arr
            &&& (choices->0->Arr_0).len() == 0 ==> e.choice is None
            &&& (choices->0->Arr_0).len() > 0 && choices->0->Arr_0[0] is Obj ==> e.choice is Some
                && tells(choices->0->Arr_0[0], "finish_reason"@, (e.choice->0).finish)
            &&& (choices->0->Arr_0).len() > 0 && choices->0->Arr_0[0].get("delta"@) is Some
                && choices->0->Arr_0[0].get("delta"@)->0 is Obj ==> {
                let d = choices->0->Arr_0[0].get("delta"@)->0;
                let c = e.choice->0;
                &&& tells(d, "content"@, c.content)
                &&& tells(d, "reasoning_content"@, c.reasoning)
                &&& tells(d, "refusal"@, c.refusal)
                &&& d.get("tool_calls"@) is Some && d.get("tool_calls"@)->0 is Arr ==> reads_fragments(
                    d.get("tool_calls"@)->0->Arr_0,
                    c.tools,
                )
            }
        }),
{
    let e = openai_stream::event_of(t)->0;
    let list = t.get("choices"@)->0->Arr_0;
    if list.len() > 0 {
        assert(openai_stream::choice_of(list[0]) is Some);
        if list[0].get("delta"@) is Some && list[0].get("delta"@)->0 is Obj {
            let d = list[0].get("delta"@)->0;
            if let Some(Tree::Arr(v)) = d.get("tool_calls"@) {
                lemma_fragments_are_read(v, false);
            }
        }
    }
}

/// Fragments tell what their members hold, in order.
pub open spec fn reads_fragments(v: Seq<Tree>, ps: Seq<ToolPart>) -> bool {
    &&& ps.len() == v.len()
    &&& forall|k: int|
        0 <= k < v.len() && v[k] is Obj ==> reads_fragment(#[trigger] v[k], ps[k])
}

/// A fragment tells what its members hold.
pub open spec fn reads_fragment(t: Tree, p: ToolPart) -> bool {
    &&& t.get("index"@) == Some(Tree::Int(p.index as int))
    &&& tells(t, "id"@, p.id)
    &&& t.get("function"@) is Some && t.get("function"@)->0 is Obj ==> p.function is Some && tells(
        t.get("function"@)->0,
        "name"@,
        (p.function->0).name,
    ) && tells(t.get("function"@)->0, "arguments"@, (p.function->0).arguments)
    &&& t.get("function"@) is None ==> p.function is None
}

pub proof fn lemma_fragments_are_read(v: Seq<Tree>, typed: bool)
    requires
        stream_events::all_tool_parts(v, typed) is Some,
    ensures
        (stream_events::all_tool_parts(v, typed)->0).len() == v.len(),
        forall|k: int|
            0 <= k < v.len() && v[k] is Obj ==> reads_fragment(
                #[trigger] v[k],
                (stream_events::all_tool_parts(v, typed)->0)[k],
            ),
    decreases v.len(),
{
    if v.len() > 0 {
        lemma_fragments_are_read(v.drop_last(), typed);
        let all = stream_events::all_tool_parts(v, typed)->0;
        let few = stream_events::all_tool_parts(v.drop_last(), typed)->0;
        assert forall|k: int| 0 <= k < v.len() && v[k] is Obj implies reads_fragment(
            #[trigger] v[k],
            all[k],
        ) by {
            if k < v.len() - 1 {
                assert(v.drop_last()[k] == v[k]);
                assert(all[k] == few[k]);
            }
        }
    }
}

/// Token counts are read from their members.
pub proof fn law_token_counts_are_read(t: Tree, prompt: u32, completion: u32, cached: u32, thought: u32)
    requires
        anthropic_laws::holds_number(t, "prompt_tokens"@, prompt),
        anthropic_laws::holds_number(t, "completion_tokens"@, completion),
        t.get("prompt_tokens_details"@) is Some,
        anthropic_laws::holds_number(t.get("prompt_tokens_details"@)->0, "cached_tokens"@, cached),
        t.get("completion_tokens_details"@) is Some,
        anthropic_laws::holds_number(
            t.get("completion_tokens_details"@)->0,
            "reasoning_tokens"@,
            thought,
        ),
        t.get("prompt_cache_miss_tokens"@) is None,
    ensures
        openai_stream::usage_of(t) == Some(
            OpenAiUsage {
                prompt_tokens: prompt,
                completion_tokens: completion,
                cached_tokens: Some(cached),
                reasoning_tokens: Some(thought),
                prompt_cache_miss_tokens: None,
            },
        ),
{
}

/// A line of data that is JSON and describes an event does what the event does.
pub proof fn law_lines_tell_events(
    p: Progress,
    line: Seq<char>,
    d: Seq<char>,
    t: Tree,
    e: Event,
    m: Option<CompatModel>,
    room: usize,
)
    requires
        text::trimmed(line) == "data: "@ + d,
        d != "[DONE]"@,
        json::parsed(d) == Some(t),
        openai_stream::event_of(t) == Some(e),
    ensures
        p.line(line, m, room) == p.event(e, m, room),
{
    anthropic_laws::lemma_data_line(d);
}

} // verus!
