//! What a Gemini response is read for: its answer is shown as text, its thoughts as
//! reasoning, its calls are made as they were said, and its tokens are counted and paid.

use crate::fields;
use crate::json;
use crate::json::Tree;
use crate::providers::anthropic_laws;
use crate::providers::gemini_laws;
use crate::providers::gemini_stream;
use crate::providers::gemini_stream::{
    Call, Candidate, Event, FunctionCall, GeminiUsageMetadata, Part, Progress,
};
use crate::providers::minimax_laws;
use crate::providers::openai_laws;
use crate::providers::tool_args;
use crate::providers::types;
use crate::providers::types::{Chunk, Model};
use crate::text;
use vstd::prelude::*;

verus! {

// ---------------------------------------------------------------------------
// Text and thoughts
// ---------------------------------------------------------------------------

/// The answer that parts give: the texts that are no thoughts.
pub open spec fn answer(ps: Seq<Part>) -> Seq<char>
    decreases ps.len(),
{
    if ps.len() == 0 {
        Seq::empty()
    } else {
        answer(ps.drop_last()) + (if ps.last().text is Some && ps.last().thought != Some(true) {
            ps.last().text->0
        } else {
            Seq::empty()
        })
    }
}

/// The thoughts that parts give.
pub open spec fn thoughts(ps: Seq<Part>) -> Seq<char>
    decreases ps.len(),
{
    if ps.len() == 0 {
        Seq::empty()
    } else {
        thoughts(ps.drop_last()) + (if ps.last().text is Some && ps.last().thought == Some(true) {
            ps.last().text->0
        } else {
            Seq::empty()
        })
    }
}

/// The answer that candidates give.
pub open spec fn all_answers(cs: Seq<Candidate>) -> Seq<char>
    decreases cs.len(),
{
    if cs.len() == 0 {
        Seq::empty()
    } else {
        all_answers(cs.drop_last()) + answer(cs.last().parts)
    }
}

/// The thoughts that candidates give.
pub open spec fn all_thoughts(cs: Seq<Candidate>) -> Seq<char>
    decreases cs.len(),
{
    if cs.len() == 0 {
        Seq::empty()
    } else {
        all_thoughts(cs.drop_last()) + thoughts(cs.last().parts)
    }
}

/// The answer that events give.
pub open spec fn whole_answer(es: Seq<Event>) -> Seq<char>
    decreases es.len(),
{
    if es.len() == 0 {
        Seq::empty()
    } else {
        whole_answer(es.drop_last()) + all_answers(es.last().candidates)
    }
}

/// The thoughts that events give.
pub open spec fn whole_thoughts(es: Seq<Event>) -> Seq<char>
    decreases es.len(),
{
    if es.len() == 0 {
        Seq::empty()
    } else {
        whole_thoughts(es.drop_last()) + all_thoughts(es.last().candidates)
    }
}

proof fn lemma_parts(p: Progress, ps: Seq<Part>, id: Seq<char>)
    ensures
        minimax_laws::visible_text(p.parts(ps, id).chunks) == minimax_laws::visible_text(p.chunks)
            + answer(ps),
        minimax_laws::reasoning_text(p.parts(ps, id).chunks) == minimax_laws::reasoning_text(
            p.chunks,
        ) + thoughts(ps),
    decreases ps.len(),
{
    if ps.len() == 0 {
        assert(minimax_laws::visible_text(p.chunks) + answer(ps) =~= minimax_laws::visible_text(
            p.chunks,
        ));
        assert(minimax_laws::reasoning_text(p.chunks) + thoughts(ps)
            =~= minimax_laws::reasoning_text(p.chunks));
    } else {
        lemma_parts(p, ps.drop_last(), id);
        let q = p.parts(ps.drop_last(), id);
        let carried = gemini_stream::carried_by(ps.drop_last());
        let new = gemini_stream::part_chunks(ps.last(), carried, id);
        minimax_laws::lemma_texts_add(q.chunks, new);
        if new.len() == 1 {
            assert(new =~= seq![new[0]]);
            minimax_laws::lemma_one(new[0]);
        } else {
            openai_laws::lemma_silent(new);
        }
        assert(minimax_laws::visible_text(p.parts(ps, id).chunks) =~= minimax_laws::visible_text(
            p.chunks,
        ) + answer(ps));
        assert(minimax_laws::reasoning_text(p.parts(ps, id).chunks)
            =~= minimax_laws::reasoning_text(p.chunks) + thoughts(ps));
    }
}

proof fn lemma_candidates(p: Progress, cs: Seq<Candidate>, id: Seq<char>)
    ensures
        minimax_laws::visible_text(p.candidates(cs, id).chunks) == minimax_laws::visible_text(
            p.chunks,
        ) + all_answers(cs),
        minimax_laws::reasoning_text(p.candidates(cs, id).chunks) == minimax_laws::reasoning_text(
            p.chunks,
        ) + all_thoughts(cs),
    decreases cs.len(),
{
    if cs.len() == 0 {
        assert(minimax_laws::visible_text(p.chunks) + all_answers(cs)
            =~= minimax_laws::visible_text(p.chunks));
        assert(minimax_laws::reasoning_text(p.chunks) + all_thoughts(cs)
            =~= minimax_laws::reasoning_text(p.chunks));
    } else {
        lemma_candidates(p, cs.drop_last(), id);
        lemma_parts(p.candidates(cs.drop_last(), id), cs.last().parts, id);
        assert(minimax_laws::visible_text(p.candidates(cs, id).chunks)
            =~= minimax_laws::visible_text(p.chunks) + all_answers(cs));
        assert(minimax_laws::reasoning_text(p.candidates(cs, id).chunks)
            =~= minimax_laws::reasoning_text(p.chunks) + all_thoughts(cs));
    }
}

proof fn lemma_open_is_silent(calls: Seq<Call>, id: Option<Seq<char>>)
    ensures
        forall|i: int|
            0 <= i < gemini_stream::open_chunks(calls, id).len() ==> #[trigger] (
            gemini_stream::open_chunks(calls, id)[i]) is ToolCall,
    decreases calls.len(),
{
    if calls.len() > 0 {
        lemma_open_is_silent(calls.drop_last(), id);
    }
}

/// The texts of an event are shown, in order and as they are: the answer as text and the
/// thoughts as reasoning, neither of them in the other's place.
pub proof fn law_event_shows_answer_and_thoughts(p: Progress, e: Event, m: Option<Model>)
    ensures
        minimax_laws::visible_text(p.event(e, m).chunks) == minimax_laws::visible_text(p.chunks)
            + all_answers(e.candidates),
        minimax_laws::reasoning_text(p.event(e, m).chunks) == minimax_laws::reasoning_text(
            p.chunks,
        ) + all_thoughts(e.candidates),
{
    let id = gemini_stream::response_id(e);
    lemma_candidates(p, e.candidates, id);
    let a = p.candidates(e.candidates, id);
    lemma_open_is_silent(a.state.calls, Some(id));
    let open = gemini_stream::open_chunks(a.state.calls, Some(id));
    openai_laws::lemma_silent(open);
    minimax_laws::lemma_texts_add(a.chunks, open);
    let q = p.event(e, m);
    let b = if gemini_stream::is_end(a.state.stop) {
        a.hand_out(Some(id))
    } else {
        a
    };
    assert(minimax_laws::visible_text(b.chunks) =~= minimax_laws::visible_text(a.chunks));
    assert(minimax_laws::reasoning_text(b.chunks) =~= minimax_laws::reasoning_text(a.chunks));
    if e.usage is Some {
        assert(q.chunks.drop_last() =~= b.chunks);
        assert(minimax_laws::visible_text(q.chunks) =~= minimax_laws::visible_text(b.chunks));
        assert(minimax_laws::reasoning_text(q.chunks) =~= minimax_laws::reasoning_text(b.chunks));
    }
}

/// A whole response shows its whole answer as text and all of its thoughts as reasoning.
pub proof fn law_response_shows_answer_and_thoughts(es: Seq<Event>, m: Option<Model>)
    ensures
        minimax_laws::visible_text(gemini_laws::after_events(gemini_laws::start(), es, m).chunks)
            == whole_answer(es),
        minimax_laws::reasoning_text(gemini_laws::after_events(gemini_laws::start(), es, m).chunks)
            == whole_thoughts(es),
    decreases es.len(),
{
    if es.len() > 0 {
        law_response_shows_answer_and_thoughts(es.drop_last(), m);
        law_event_shows_answer_and_thoughts(
            gemini_laws::after_events(gemini_laws::start(), es.drop_last(), m),
            es.last(),
            m,
        );
    }
}

/// A text is one chunk, under the identifier of the response; a signature of its own goes
/// with it.
pub proof fn law_texts_keep_identifier_and_signature(
    p: Progress,
    part: Part,
    carried: Option<Seq<char>>,
    id: Seq<char>,
)
    requires
        part.text is Some,
    ensures
        ({
            let q = p.part(part, carried, id);
            let signature = if part.signature is Some {
                part.signature
            } else {
                carried
            };
            &&& part.thought == Some(true) ==> q.chunks == p.chunks.push(
                Chunk::Reasoning {
                    reasoning: part.text->0,
                    details: None,
                    signature,
                    redacted_data: None,
                    id: Some(id),
                },
            )
            &&& part.thought != Some(true) ==> q.chunks == p.chunks.push(
                Chunk::Text { text: part.text->0, id: Some(id), signature },
            )
        }),
{
    let q = p.part(part, carried, id);
    let new = gemini_stream::part_chunks(part, carried, id);
    assert(q.chunks =~= p.chunks.push(new[0]));
}

// ---------------------------------------------------------------------------
// Calls
// ---------------------------------------------------------------------------

/// A call that comes in waits with its own name, its own identifier and its arguments
/// printed; a call with another identifier stays as it was.
pub proof fn law_calls_are_taken_in(
    p: Progress,
    part: Part,
    carried: Option<Seq<char>>,
    id: Seq<char>,
    c: FunctionCall,
    call_id: Seq<char>,
    j: int,
)
    requires
        part.call == Some(c),
        c.id == Some(call_id),
        forall|i: int|
            0 <= i < p.state.calls.len() ==> !((#[trigger] p.state.calls[i]).id == call_id
                && p.state.calls[i].completed),
        0 <= j < p.state.calls.len(),
    ensures
        ({
            let calls = p.part(part, carried, id).state.calls;
            &&& exists|i: int|
                0 <= i < calls.len() && waits(#[trigger] calls[i], c.name, call_id, c.args) && (
                part.signature is Some ==> calls[i].signature == part.signature)
            &&& p.state.calls[j].id != call_id ==> calls[j] == p.state.calls[j]
            &&& p.state.calls.len() <= calls.len() <= p.state.calls.len() + 1
        }),
{
    lemma_taken_in(p, part, carried, id, c, call_id);
    gemini_stream::lemma_position(p.state.calls, call_id);
}

/// A call waits to be made, with a name, an identifier and arguments.
pub open spec fn waits(
    c: Call,
    name: Seq<char>,
    id: Seq<char>,
    args: Option<Tree>,
) -> bool {
    &&& !c.completed
    &&& c.name == name
    &&& c.id == id
    &&& args is None ==> c.arguments.len() == 0
    &&& args is Some && text::byte_len(json::printed(args->0)) <= types::MAX_TOOL_ARGUMENT_SIZE
        ==> c.arguments == json::printed(args->0)
}

proof fn lemma_taken_in(
    p: Progress,
    part: Part,
    carried: Option<Seq<char>>,
    id: Seq<char>,
    c: FunctionCall,
    call_id: Seq<char>,
)
    requires
        part.call == Some(c),
        c.id == Some(call_id),
        forall|i: int|
            0 <= i < p.state.calls.len() ==> !((#[trigger] p.state.calls[i]).id == call_id
                && p.state.calls[i].completed),
    ensures
        ({
            let calls = p.part(part, carried, id).state.calls;
            exists|i: int|
                0 <= i < calls.len() && waits(#[trigger] calls[i], c.name, call_id, c.args) && (
                part.signature is Some ==> calls[i].signature == part.signature)
        }),
{
    let calls = p.part(part, carried, id).state.calls;
    gemini_stream::lemma_position(p.state.calls, call_id);
    if let Some(a) = c.args {
        if text::byte_len(json::printed(a)) <= types::MAX_TOOL_ARGUMENT_SIZE {
            assert(text::byte_len(Seq::<char>::empty()) == 0);
            tool_args::law_fitting_fragment_is_whole(Seq::empty(), json::printed(a));
            assert(Seq::<char>::empty() + json::printed(a) =~= json::printed(a));
        }
    }
    match gemini_stream::position(p.state.calls, call_id) {
        Some(i) => {
            assert(waits(calls[i], c.name, call_id, c.args));
        },
        None => {
            assert(waits(calls[calls.len() - 1], c.name, call_id, c.args));
        },
    }
}

/// Where calls are handed out, each call that waits is made once with what it holds: its
/// identifier, its name, its arguments and its signature. What was shown before stays.
pub proof fn law_waiting_calls_are_made(p: Progress, id: Option<Seq<char>>, i: int)
    requires
        0 <= i < p.state.calls.len(),
        !p.state.calls[i].completed,
    ensures
        ({
            let q = p.hand_out(id);
            let c = p.state.calls[i];
            &&& q.chunks.len() >= p.chunks.len() && q.chunks.take(p.chunks.len() as int)
                == p.chunks
            &&& exists|k: int|
                p.chunks.len() <= k < q.chunks.len() && makes(#[trigger] q.chunks[k], c, id)
            &&& q.state.calls.len() == p.state.calls.len()
            &&& q.state.calls[i].completed
        }),
{
    let q = p.hand_out(id);
    let open = gemini_stream::open_chunks(p.state.calls, id);
    lemma_open_has(p.state.calls, id, i);
    let k = choose|k: int| 0 <= k < open.len() && makes(#[trigger] open[k], p.state.calls[i], id);
    assert(q.chunks[p.chunks.len() + k] == open[k]);
    assert(q.chunks.take(p.chunks.len() as int) =~= p.chunks);
}

/// The chunk makes a call: JSON arguments as they are.
pub open spec fn makes(chunk: Chunk, c: Call, id: Option<Seq<char>>) -> bool {
    exists|arguments: Seq<char>| #[trigger]
        stands_for(arguments, c.arguments) && chunk == (Chunk::ToolCall {
            call_id: Some(c.id),
            function_id: Some(c.id),
            name: Some(c.name),
            arguments: Some(arguments),
            call_signature: c.signature,
            id,
            signature: c.signature,
        })
}

/// The arguments are those that were said, where these are JSON.
pub open spec fn stands_for(arguments: Seq<char>, said: Seq<char>) -> bool {
    &&& said.len() > 0 && json::parsed(said) is Some ==> arguments == said
    &&& said.len() == 0 ==> arguments == "{}"@
}

proof fn lemma_open_has(calls: Seq<Call>, id: Option<Seq<char>>, i: int)
    requires
        0 <= i < calls.len(),
        !calls[i].completed,
    ensures
        ({
            let open = gemini_stream::open_chunks(calls, id);
            exists|k: int| 0 <= k < open.len() && makes(#[trigger] open[k], calls[i], id)
        }),
    decreases calls.len(),
{
    let open = gemini_stream::open_chunks(calls, id);
    let few = gemini_stream::open_chunks(calls.drop_last(), id);
    if i == calls.len() - 1 {
        assert(stands_for(tool_args::validated(calls[i].arguments), calls[i].arguments));
        assert(makes(open[open.len() - 1], calls[i], id));
    } else {
        lemma_open_has(calls.drop_last(), id, i);
        let k = choose|k: int| 0 <= k < few.len() && makes(#[trigger] few[k], calls[i], id);
        assert(open[k] == few[k]);
    }
}

/// An answer that ends by `STOP`, `MAX_TOKENS` or `SAFETY` makes its calls at once; another
/// event makes none. The end of the response makes what is left.
pub proof fn law_calls_are_made_at_the_end(p: Progress, e: Event, m: Option<Model>, i: int)
    requires
        e.candidates.len() > 0,
        e.candidates.last().finish is Some,
    ensures
        ({
            let a = p.candidates(e.candidates, gemini_stream::response_id(e));
            let q = p.event(e, m);
            let stop = e.candidates.last().finish->0;
            let ends = stop == "STOP"@ || stop == "MAX_TOKENS"@ || stop == "SAFETY"@;
            &&& q.state.calls.len() == a.state.calls.len()
            &&& 0 <= i < a.state.calls.len() && !a.state.calls[i].completed && ends
                ==> q.state.calls[i].completed && exists|k: int|
                a.chunks.len() <= k < q.chunks.len() && makes(
                    #[trigger] q.chunks[k],
                    a.state.calls[i],
                    Some(gemini_stream::response_id(e)),
                )
            &&& !ends ==> gemini_laws::sent(q.chunks) == gemini_laws::sent(a.chunks)
            &&& !ends ==> q.state.calls == a.state.calls
            &&& q.state.stop == Some(stop)
        }),
{
    let id = gemini_stream::response_id(e);
    let a = p.candidates(e.candidates, id);
    let q = p.event(e, m);
    let b = if gemini_stream::is_end(a.state.stop) {
        a.hand_out(Some(id))
    } else {
        a
    };
    if 0 <= i < a.state.calls.len() && !a.state.calls[i].completed && gemini_stream::is_end(
        a.state.stop,
    ) {
        law_waiting_calls_are_made(a, Some(id), i);
        let k = choose|k: int|
            a.chunks.len() <= k < b.chunks.len() && makes(
                #[trigger] b.chunks[k],
                a.state.calls[i],
                Some(id),
            );
        assert(q.chunks[k] == b.chunks[k]);
    }
    if e.usage is Some {
        assert(q.chunks.drop_last() =~= b.chunks);
    }
}

/// The end of a response makes every call that still waits.
pub proof fn law_the_end_makes_what_is_left(p: Progress, i: int)
    requires
        0 <= i < p.state.calls.len(),
        !p.state.calls[i].completed,
    ensures
        ({
            let q = p.finish();
            &&& exists|k: int|
                p.chunks.len() <= k < q.chunks.len() && makes(
                    #[trigger] q.chunks[k],
                    p.state.calls[i],
                    None,
                )
            &&& q.state.calls[i].completed
        }),
{
    law_waiting_calls_are_made(p, None, i);
    let a = p.hand_out(None);
    let q = p.finish();
    let k = choose|k: int|
        p.chunks.len() <= k < a.chunks.len() && makes(
            #[trigger] a.chunks[k],
            p.state.calls[i],
            None,
        );
    assert(q.chunks[k] == a.chunks[k]);
}

// ---------------------------------------------------------------------------
// Tokens
// ---------------------------------------------------------------------------

/// Token counts.
pub open spec fn counts(prompt: u32, output: u32, thought: u32, cached: u32) -> GeminiUsageMetadata {
    GeminiUsageMetadata {
        prompt_token_count: Some(prompt),
        candidates_token_count: Some(output),
        thoughts_token_count: Some(thought),
        cached_content_token_count: Some(cached),
    }
}

/// An event with token counts ends with a chunk that hands them on: input that was cached
/// and input that was not make up the prompt, and the last reason for stopping is told.
pub proof fn law_token_counts_are_handed_on(
    p: Progress,
    e: Event,
    m: Option<Model>,
    prompt: u32,
    output: u32,
    thought: u32,
    cached: u32,
)
    requires
        e.usage == Some(counts(prompt, output, thought, cached)),
        cached <= prompt,
    ensures
        ({
            let q = p.event(e, m);
            let last = q.chunks.last();
            &&& q.chunks.len() > 0
            &&& last is Usage
            &&& ({
                let u = last->Usage_0;
                &&& u.input_tokens + cached == prompt
                &&& u.cache_read_tokens == Some(cached)
                &&& u.output_tokens == output
                &&& u.reasoning_tokens == Some(thought)
                &&& u.thoughts_token_count == Some(thought)
                &&& u.cache_write_tokens is None
                &&& u.stop_reason == q.state.stop
                &&& e.id is Some ==> u.id == e.id
                &&& m is None ==> u.total_cost is None
            })
        }),
{
}

/// What token counts cost under a model without tiers.
pub open spec fn cost(u: GeminiUsageMetadata, m: Model) -> int {
    gemini_stream::response_cost(u, Some(m))->0 as int
}

/// Each token is paid once at the price of its kind: input that was not cached at the price
/// of input, cached input at that of cache reads, and both output and thoughts at the price
/// of output.
pub proof fn law_each_token_is_paid_once(
    m: Model,
    i: u64,
    o: u64,
    r: u64,
    prompt: u32,
    output: u32,
    thought: u32,
    cached: u32,
)
    requires
        m.input_price == Some(i),
        m.output_price == Some(o),
        m.cache_reads_price == Some(r),
        m.tiers is None,
        cached <= prompt < u32::MAX,
        output < u32::MAX,
        thought < u32::MAX,
    ensures
        cost(counts(0, 0, 0, 0), m) == 0,
        cost(counts(prompt, (output + 1) as u32, thought, cached), m) == cost(
            counts(prompt, output, thought, cached),
            m,
        ) + o,
        cost(counts(prompt, output, (thought + 1) as u32, cached), m) == cost(
            counts(prompt, output, thought, cached),
            m,
        ) + o,
        cost(counts((prompt + 1) as u32, output, thought, cached), m) == cost(
            counts(prompt, output, thought, cached),
            m,
        ) + i,
        cost(counts((prompt + 1) as u32, output, thought, (cached + 1) as u32), m) == cost(
            counts(prompt, output, thought, cached),
            m,
        ) + r,
{
    lemma_cost(m, i, o, r, 0, 0, 0, 0);
    lemma_cost(m, i, o, r, prompt, output, thought, cached);
    lemma_cost(m, i, o, r, prompt, (output + 1) as u32, thought, cached);
    lemma_cost(m, i, o, r, prompt, output, (thought + 1) as u32, cached);
    lemma_cost(m, i, o, r, (prompt + 1) as u32, output, thought, cached);
    lemma_cost(m, i, o, r, (prompt + 1) as u32, output, thought, (cached + 1) as u32);
    let a = prompt - cached;
    assert(i * (a + 1) == i * a + i) by (nonlinear_arith);
    assert(o * (output + 1) == o * output + o) by (nonlinear_arith);
    assert(o * (thought + 1) == o * thought + o) by (nonlinear_arith);
    assert(r * (cached + 1) == r * cached + r) by (nonlinear_arith);
    assert(prompt + 1 - cached == a + 1);
    assert(i * 0 == 0 && o * 0 == 0 && r * 0 == 0);
}

proof fn lemma_cost(
    m: Model,
    i: u64,
    o: u64,
    r: u64,
    prompt: u32,
    output: u32,
    thought: u32,
    cached: u32,
)
    requires
        m.input_price == Some(i),
        m.output_price == Some(o),
        m.cache_reads_price == Some(r),
        m.tiers is None,
        cached <= prompt,
    ensures
        cost(counts(prompt, output, thought, cached), m) == i * (prompt - cached) + o * output + o
            * thought + r * cached,
{
    openai_laws::lemma_product(i as int, prompt - cached);
    openai_laws::lemma_product(o as int, output as int);
    openai_laws::lemma_product(o as int, thought as int);
    openai_laws::lemma_product(r as int, cached as int);
}

/// The first tier that the prompt fits in gives the prices.
pub proof fn law_tiers_give_the_prices(m: Model, input: u32, k: int)
    requires
        m.input_price is Some,
        m.output_price is Some,
        m.tiers is Some,
        0 <= k < m.tiers->0.len(),
        input <= m.tiers->0[k].context_window,
        forall|j: int| 0 <= j < k ==> input > (#[trigger] m.tiers->0[j]).context_window,
    ensures
        ({
            let t = m.tiers->0[k];
            let p = gemini_stream::prices(m, input);
            &&& p is Some
            &&& t.input_price is Some ==> (p->0).0 == t.input_price->0
            &&& t.input_price is None ==> (p->0).0 == m.input_price->0
            &&& t.output_price is Some ==> (p->0).1 == t.output_price->0
            &&& t.output_price is None ==> (p->0).1 == m.output_price->0
        }),
{
    lemma_tier(m.tiers->0, input, k);
}

proof fn lemma_tier(tiers: Seq<types::ModelTier>, input: u32, k: int)
    requires
        0 <= k < tiers.len(),
        input <= tiers[k].context_window,
        forall|j: int| 0 <= j < k ==> input > (#[trigger] tiers[j]).context_window,
    ensures
        gemini_stream::tier_for(tiers, input) == Some(tiers[k]),
    decreases k,
{
    if k > 0 {
        let rest = tiers.skip(1);
        assert(input > tiers[0].context_window);
        assert forall|j: int| 0 <= j < k - 1 implies input > (#[trigger] rest[j]).context_window by {
            assert(rest[j] == tiers[j + 1]);
        }
        lemma_tier(rest, input, k - 1);
    }
}

// ---------------------------------------------------------------------------
// Reading
// ---------------------------------------------------------------------------

/// A part is read from its members: text, thought, signature and call.
pub proof fn law_parts_are_read(t: Tree, s: Seq<char>, signature: Seq<char>)
    requires
        t is Obj,
        t.get("functionCall"@) is None,
        anthropic_laws::holds_text(t, "text"@, s),
        anthropic_laws::holds_text(t, "thoughtSignature"@, signature),
        t.get("thought"@) is None || t.get("thought"@) == Some(Tree::Bool(true)),
    ensures
        gemini_stream::part_of(t) == Some(
            Part {
                text: Some(s),
                thought: if t.get("thought"@) is None {
                    None
                } else {
                    Some(true)
                },
                signature: Some(signature),
                call: None,
            },
        ),
{
}

/// A part that is nothing but text is read as that.
pub proof fn law_plain_parts_are_read(t: Tree, s: Seq<char>)
    requires
        t is Obj,
        t.get("functionCall"@) is None,
        anthropic_laws::holds_text(t, "text"@, s),
        t.get("thoughtSignature"@) is None,
        t.get("thought"@) is None,
    ensures
        gemini_stream::part_of(t) == Some(
            Part { text: Some(s), thought: None, signature: None, call: None },
        ),
{
}

/// A call is read from its members: its name, its arguments and its identifier.
pub proof fn law_calls_are_read(t: Tree, c: Tree, name: Seq<char>, args: Tree, id: Seq<char>)
    requires
        t is Obj,
        t.get("functionCall"@) == Some(c),
        c is Obj,
        t.get("text"@) is None,
        t.get("thought"@) is None,
        t.get("thoughtSignature"@) is None,
        anthropic_laws::holds_text(c, "name"@, name),
        c.get("args"@) == Some(args),
        args is Obj,
        anthropic_laws::holds_text(c, "id"@, id),
    ensures
        gemini_stream::part_of(t) == Some(
            Part {
                text: None,
                thought: None,
                signature: None,
                call: Some(FunctionCall { name, args: Some(args), id: Some(id) }),
            },
        ),
{
}

/// The parts of a list are read one by one, in order.
pub proof fn law_lists_of_parts_are_read(ts: Seq<Tree>, k: int)
    requires
        gemini_stream::all_parts(ts) is Some,
        0 <= k < ts.len(),
    ensures
        gemini_stream::all_parts(ts)->0.len() == ts.len(),
        gemini_stream::part_of(ts[k]) == Some(gemini_stream::all_parts(ts)->0[k]),
    decreases ts.len(),
{
    if ts.len() > 1 && k < ts.len() - 1 {
        law_lists_of_parts_are_read(ts.drop_last(), k);
    } else if ts.len() > 1 {
        law_lists_of_parts_are_read(ts.drop_last(), 0);
    }
}

/// A list whose parts can all be read can be read.
pub proof fn law_readable_parts_make_a_list(ts: Seq<Tree>)
    requires
        forall|k: int| 0 <= k < ts.len() ==> gemini_stream::part_of(#[trigger] ts[k]) is Some,
    ensures
        gemini_stream::all_parts(ts) is Some,
    decreases ts.len(),
{
    if ts.len() > 0 {
        let p = ts.drop_last();
        assert forall|k: int| 0 <= k < p.len() implies gemini_stream::part_of(
            #[trigger] p[k],
        ) is Some by {
            assert(gemini_stream::part_of(ts[k]) is Some);
        }
        law_readable_parts_make_a_list(p);
        assert(gemini_stream::part_of(ts[ts.len() - 1]) is Some);
    }
}

/// A candidate is read from its members: the parts of its content, its reason for
/// stopping and its sources.
pub proof fn law_candidates_are_read(t: Tree, content: Tree, ts: Seq<Tree>, finish: Seq<char>)
    requires
        t is Obj,
        t.get("content"@) == Some(content),
        content is Obj,
        content.get("parts"@) == Some(Tree::Arr(ts)),
        gemini_stream::all_parts(ts) is Some,
        anthropic_laws::holds_text(t, "finishReason"@, finish),
    ensures
        gemini_stream::candidate_of(t) is Some,
        ({
            let c = gemini_stream::candidate_of(t)->0;
            &&& gemini_stream::all_parts(ts) == Some(c.parts)
            &&& c.finish == Some(finish)
            &&& t.get("groundingMetadata"@) is None ==> c.grounding is None
            &&& t.get("groundingMetadata"@) is Some && !(t.get("groundingMetadata"@)->0 is Null)
                ==> c.grounding == t.get("groundingMetadata"@)
        }),
{
}

/// An event with one candidate and token counts is read from its members.
pub proof fn law_events_are_read(
    t: Tree,
    c: Tree,
    u: Tree,
    id: Seq<char>,
    prompt: u32,
    output: u32,
    thought: u32,
    cached: u32,
)
    requires
        t is Obj,
        t.get("candidates"@) == Some(Tree::Arr(seq![c])),
        gemini_stream::candidate_of(c) is Some,
        anthropic_laws::holds_text(t, "responseId"@, id),
        t.get("usageMetadata"@) == Some(u),
        u is Obj,
        anthropic_laws::holds_number(u, "promptTokenCount"@, prompt),
        anthropic_laws::holds_number(u, "candidatesTokenCount"@, output),
        anthropic_laws::holds_number(u, "thoughtsTokenCount"@, thought),
        anthropic_laws::holds_number(u, "cachedContentTokenCount"@, cached),
    ensures
        gemini_stream::event_of(t) == Some(
            Event {
                candidates: seq![gemini_stream::candidate_of(c)->0],
                usage: Some(counts(prompt, output, thought, cached)),
                id: Some(id),
            },
        ),
{
    let ts = seq![c];
    assert(ts.drop_last() =~= Seq::<Tree>::empty());
    assert(gemini_stream::all_candidates(Seq::<Tree>::empty()) == Some(Seq::<Candidate>::empty()));
    assert(gemini_stream::all_candidates(ts)->0 =~= seq![gemini_stream::candidate_of(c)->0]);
}

/// An event without token counts is read, and tells of none.
pub proof fn law_events_without_counts_are_read(t: Tree, c: Tree)
    requires
        t is Obj,
        t.get("candidates"@) == Some(Tree::Arr(seq![c])),
        gemini_stream::candidate_of(c) is Some,
        t.get("responseId"@) is None,
        t.get("usageMetadata"@) is None,
    ensures
        gemini_stream::event_of(t) == Some(
            Event {
                candidates: seq![gemini_stream::candidate_of(c)->0],
                usage: None,
                id: None,
            },
        ),
{
    let ts = seq![c];
    assert(ts.drop_last() =~= Seq::<Tree>::empty());
    assert(gemini_stream::all_candidates(Seq::<Tree>::empty()) == Some(Seq::<Candidate>::empty()));
    assert(gemini_stream::all_candidates(ts)->0 =~= seq![gemini_stream::candidate_of(c)->0]);
}

/// A data line that holds an event is taken in as that event.
pub proof fn law_lines_tell_events(
    p: Progress,
    line: Seq<char>,
    d: Seq<char>,
    t: Tree,
    e: Event,
    m: Option<Model>,
)
    requires
        text::trimmed(line) == "data: "@ + d,
        d != "[DONE]"@,
        json::parsed(d) == Some(t),
        gemini_stream::event_of(t) == Some(e),
    ensures
        p.line(line, m) == p.event(e, m),
{
    anthropic_laws::lemma_data_line(d);
}

// ---------------------------------------------------------------------------
// Sources
// ---------------------------------------------------------------------------

/// Every source with an address stands in the list under its number, with its title and
/// its address; one without adds nothing.
pub proof fn law_sources_are_listed(v: Seq<Tree>, web: Tree, last: Tree)
    requires
        last.get("web"@) == Some(web),
    ensures
        ({
            let before = gemini_stream::source_list(v);
            let after = gemini_stream::source_list(v.push(last));
            let n = text::decimal((v.len() + 1) as nat);
            let uri = fields::text_of(web, "uri"@);
            let title = fields::text_of(web, "title"@);
            &&& uri is Some && uri->0.len() > 0 && title is Some ==> after == before + (n + ". ["@
                + title->0 + "]("@ + uri->0 + ")\n"@)
            &&& uri is None ==> after == before
        }),
{
    assert(v.push(last).drop_last() =~= v);
    assert(gemini_stream::source_list(v) + Seq::<char>::empty() =~= gemini_stream::source_list(v));
}

/// The sources of a response are shown at its end, as one text after everything else.
pub proof fn law_sources_are_shown_at_the_end(p: Progress, g: Tree, v: Seq<Tree>)
    requires
        p.state.grounding == Some(g),
        g.get("groundingChunks"@) == Some(Tree::Arr(v)),
        v.len() > 0,
        text::byte_len(gemini_stream::source_list(v)) > 17,
    ensures
        p.finish().chunks.len() > 0,
        p.finish().chunks.last() == (Chunk::Text {
            text: gemini_stream::source_list(v),
            id: None,
            signature: None,
        }),
{
}

} // verus!
