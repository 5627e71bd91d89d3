//! What holds of every Gemini response as a whole: when its calls are sent, and that none
//! is sent twice.

use crate::json;
use crate::providers::gemini_stream;
use crate::providers::gemini_stream::{Call, Candidate, Event, Part, Progress};
use crate::providers::stream_events;
use crate::providers::types;
use crate::providers::types::{Chunk, Model};
use crate::text;
use vstd::prelude::*;

verus! {

/// The identifiers of the calls that chunks send, in order.
pub open spec fn sent(chunks: Seq<Chunk>) -> Seq<Option<Seq<char>>>
    decreases chunks.len(),
{
    if chunks.len() == 0 {
        Seq::empty()
    } else {
        match chunks.last() {
            Chunk::ToolCall { call_id, .. } => sent(chunks.drop_last()).push(call_id),
            _ => sent(chunks.drop_last()),
        }
    }
}

/// The identifiers of the calls that were not sent yet, in order.
pub open spec fn waiting(calls: Seq<Call>) -> Seq<Option<Seq<char>>>
    decreases calls.len(),
{
    if calls.len() == 0 {
        Seq::empty()
    } else if calls.last().completed {
        waiting(calls.drop_last())
    } else {
        waiting(calls.drop_last()).push(Some(calls.last().id))
    }
}

/// The call with an identifier was sent.
pub open spec fn is_completed(calls: Seq<Call>, id: Option<Seq<char>>) -> bool {
    exists|i: int| 0 <= i < calls.len() && (#[trigger] calls[i]).completed && Some(calls[i].id) == id
}

/// The chunks have sent exactly the calls that are marked so, none of them twice, and each
/// identifier stands once.
pub open spec fn sends_once(p: Progress) -> bool {
    &&& gemini_stream::well_kept(p.state.calls)
    &&& sent(p.chunks).no_duplicates()
    &&& forall|id: Option<Seq<char>>| #[trigger]
        sent(p.chunks).contains(id) <==> is_completed(p.state.calls, id)
}

/// The response of which nothing came in yet.
pub open spec fn start() -> Progress {
    Progress { state: gemini_stream::fresh_state(), chunks: Seq::empty() }
}

/// A response after events, in order.
pub open spec fn after_events(p: Progress, es: Seq<Event>, m: Option<Model>) -> Progress
    decreases es.len(),
{
    if es.len() == 0 {
        p
    } else {
        after_events(p, es.drop_last(), m).event(es.last(), m)
    }
}

// ---------------------------------------------------------------------------
// Facts about what was sent
// ---------------------------------------------------------------------------

proof fn lemma_sent_add(a: Seq<Chunk>, b: Seq<Chunk>)
    ensures
        sent(a + b) == sent(a) + sent(b),
    decreases b.len(),
{
    if b.len() == 0 {
        assert(a + b =~= a);
        assert(sent(a) + sent(b) =~= sent(a));
    } else {
        lemma_sent_add(a, b.drop_last());
        assert((a + b).drop_last() =~= a + b.drop_last());
        assert((a + b).last() == b.last());
        assert(sent(a + b) =~= sent(a) + sent(b));
    }
}

proof fn lemma_sends_nothing(chunks: Seq<Chunk>)
    requires
        forall|i: int| 0 <= i < chunks.len() ==> !(#[trigger] chunks[i] is ToolCall),
    ensures
        sent(chunks) == Seq::<Option<Seq<char>>>::empty(),
    decreases chunks.len(),
{
    if chunks.len() > 0 {
        let p = chunks.drop_last();
        assert forall|i: int| 0 <= i < p.len() implies !(#[trigger] p[i] is ToolCall) by {
            assert(!(chunks[i] is ToolCall));
        }
        lemma_sends_nothing(p);
        assert(!(chunks[chunks.len() - 1] is ToolCall));
    }
}

proof fn lemma_open_chunks(calls: Seq<Call>, id: Option<Seq<char>>)
    ensures
        sent(gemini_stream::open_chunks(calls, id)) == waiting(calls),
    decreases calls.len(),
{
    if calls.len() > 0 {
        lemma_open_chunks(calls.drop_last(), id);
        if !calls.last().completed {
            let rest = gemini_stream::open_chunks(calls.drop_last(), id);
            let c = gemini_stream::call_chunk(calls.last(), id);
            assert(rest.push(c).drop_last() =~= rest);
        }
    }
}

proof fn lemma_waiting(calls: Seq<Call>)
    requires
        gemini_stream::well_kept(calls),
    ensures
        waiting(calls).no_duplicates(),
        forall|id: Option<Seq<char>>| #[trigger]
            waiting(calls).contains(id) <==> exists|i: int|
                0 <= i < calls.len() && !(#[trigger] calls[i]).completed && Some(calls[i].id) == id,
    decreases calls.len(),
{
    let all = waiting(calls);
    if calls.len() > 0 {
        let p = calls.drop_last();
        assert(gemini_stream::well_kept(p)) by {
            assert forall|i: int, j: int| 0 <= i < j < p.len() implies (#[trigger] p[i]).id != (
            #[trigger] p[j]).id by {
                assert(calls[i].id != calls[j].id);
            }
            assert forall|i: int| 0 <= i < p.len() implies text::byte_len(
                (#[trigger] p[i]).arguments,
            ) <= types::MAX_TOOL_ARGUMENT_SIZE by {
                assert(calls[i] == p[i]);
            }
        }
        lemma_waiting(p);
        let few = waiting(p);
        let last = calls.len() - 1;
        let own = Some(calls.last().id);
        if !calls.last().completed {
            assert(!few.contains(own)) by {
                if few.contains(own) {
                    let i = choose|i: int|
                        0 <= i < p.len() && !(#[trigger] p[i]).completed && Some(p[i].id) == own;
                    assert(calls[i].id != calls[last].id);
                }
            }
            assert(all.no_duplicates()) by {
                assert forall|i: int, j: int| 0 <= i < j < all.len() implies all[i] != all[j] by {
                    if j == few.len() {
                        assert(few.contains(few[i]));
                    } else {
                        assert(few[i] != few[j]);
                    }
                }
            }
        }
        assert forall|id: Option<Seq<char>>| #[trigger] all.contains(id) implies exists|i: int|
            0 <= i < calls.len() && !(#[trigger] calls[i]).completed && Some(calls[i].id) == id by {
            let k = choose|k: int| 0 <= k < all.len() && all[k] == id;
            if k < few.len() {
                assert(few[k] == id);
                assert(few.contains(id));
                let i = choose|i: int|
                    0 <= i < p.len() && !(#[trigger] p[i]).completed && Some(p[i].id) == id;
                assert(calls[i] == p[i]);
            } else {
                assert(calls[last].id == calls.last().id);
            }
        }
        assert forall|id: Option<Seq<char>>|
            (exists|i: int|
                0 <= i < calls.len() && !(#[trigger] calls[i]).completed && Some(calls[i].id)
                    == id) implies #[trigger] all.contains(id) by {
            let i = choose|i: int|
                0 <= i < calls.len() && !(#[trigger] calls[i]).completed && Some(calls[i].id) == id;
            if i < p.len() {
                assert(p[i] == calls[i]);
                assert(few.contains(id));
                let k = choose|k: int| 0 <= k < few.len() && few[k] == id;
                assert(all[k] == id);
            } else {
                assert(all[few.len() as int] == id);
            }
        }
    }
}

// ---------------------------------------------------------------------------
// Parts, candidates and handing out
// ---------------------------------------------------------------------------

proof fn lemma_parts(p: Progress, ps: Seq<Part>, id: Seq<char>)
    requires
        sends_once(p),
    ensures
        sends_once(p.parts(ps, id)),
        sent(p.parts(ps, id).chunks) == sent(p.chunks),
    decreases ps.len(),
{
    if ps.len() > 0 {
        lemma_parts(p, ps.drop_last(), id);
        let q = p.parts(ps.drop_last(), id);
        let part = ps.last();
        let carried = gemini_stream::carried_by(ps.drop_last());
        let r = q.part(part, carried, id);
        lemma_sends_nothing(gemini_stream::part_chunks(part, carried, id));
        lemma_sent_add(q.chunks, gemini_stream::part_chunks(part, carried, id));
        assert(sent(r.chunks) =~= sent(q.chunks));
        gemini_stream::lemma_parts_keep_calls(p, ps, id);
        if let Some(c) = part.call {
            let new = Call {
                id: gemini_stream::call_id(c, id, q.state.calls.len()),
                name: c.name,
                arguments: gemini_stream::call_arguments(c.args),
                signature: gemini_stream::part_signature(part, carried),
                completed: false,
            };
            lemma_with_call_completes_nothing(q.state.calls, new);
        }
    }
}

proof fn lemma_with_call_completes_nothing(calls: Seq<Call>, c: Call)
    requires
        !c.completed,
    ensures
        forall|id: Option<Seq<char>>| #[trigger]
            is_completed(gemini_stream::with_call(calls, c), id) == is_completed(calls, id),
{
    gemini_stream::lemma_position(calls, c.id);
    let out = gemini_stream::with_call(calls, c);
    assert forall|id: Option<Seq<char>>| #[trigger] is_completed(out, id) == is_completed(
        calls,
        id,
    ) by {
        if is_completed(out, id) {
            let i = choose|i: int|
                0 <= i < out.len() && (#[trigger] out[i]).completed && Some(out[i].id) == id;
            assert(calls[i] == out[i]);
        }
        if is_completed(calls, id) {
            let i = choose|i: int|
                0 <= i < calls.len() && (#[trigger] calls[i]).completed && Some(calls[i].id) == id;
            assert(calls[i] == out[i]);
        }
    }
}

proof fn lemma_candidates(p: Progress, cs: Seq<Candidate>, id: Seq<char>)
    requires
        sends_once(p),
    ensures
        sends_once(p.candidates(cs, id)),
        sent(p.candidates(cs, id).chunks) == sent(p.chunks),
    decreases cs.len(),
{
    if cs.len() > 0 {
        lemma_candidates(p, cs.drop_last(), id);
        lemma_parts(p.candidates(cs.drop_last(), id), cs.last().parts, id);
    }
}

proof fn lemma_hand_out(p: Progress, id: Option<Seq<char>>)
    requires
        sends_once(p),
    ensures
        sends_once(p.hand_out(id)),
        sent(p.hand_out(id).chunks) == sent(p.chunks) + waiting(p.state.calls),
{
    let calls = p.state.calls;
    let q = p.hand_out(id);
    lemma_open_chunks(calls, id);
    lemma_sent_add(p.chunks, gemini_stream::open_chunks(calls, id));
    lemma_waiting(calls);
    gemini_stream::lemma_handed_out_keeps(calls);
    let old_ids = sent(p.chunks);
    let new_ids = waiting(calls);
    let all = sent(q.chunks);
    assert(all.no_duplicates()) by {
        assert forall|i: int, j: int| 0 <= i < j < all.len() implies all[i] != all[j] by {
            if j < old_ids.len() {
                assert(old_ids[i] != old_ids[j]);
            } else if i >= old_ids.len() {
                assert(new_ids[i - old_ids.len()] != new_ids[j - old_ids.len()]);
            } else if all[i] == all[j] {
                let id = all[i];
                assert(old_ids[i] == id);
                assert(new_ids[j - old_ids.len()] == id);
                assert(old_ids.contains(id));
                assert(new_ids.contains(id));
                let a = choose|a: int|
                    0 <= a < calls.len() && (#[trigger] calls[a]).completed && Some(calls[a].id)
                        == id;
                let b = choose|b: int|
                    0 <= b < calls.len() && !(#[trigger] calls[b]).completed && Some(calls[b].id)
                        == id;
                if a < b {
                    assert(calls[a].id != calls[b].id);
                } else {
                    assert(calls[b].id != calls[a].id);
                }
            }
        }
    }
    let out = gemini_stream::handed_out(calls);
    assert forall|x: Option<Seq<char>>| #[trigger] all.contains(x) <==> is_completed(out, x) by {
        if all.contains(x) {
            let k = choose|k: int| 0 <= k < all.len() && all[k] == x;
            if k < old_ids.len() {
                assert(old_ids[k] == x);
                assert(old_ids.contains(x));
                let i = choose|i: int|
                    0 <= i < calls.len() && (#[trigger] calls[i]).completed && Some(calls[i].id)
                        == x;
                assert(out[i].id == calls[i].id);
            } else {
                assert(new_ids[k - old_ids.len()] == x);
                assert(new_ids.contains(x));
                let i = choose|i: int|
                    0 <= i < calls.len() && !(#[trigger] calls[i]).completed && Some(calls[i].id)
                        == x;
                assert(out[i].id == calls[i].id);
            }
        }
        if is_completed(out, x) {
            let i = choose|i: int|
                0 <= i < out.len() && (#[trigger] out[i]).completed && Some(out[i].id) == x;
            assert(calls[i].id == out[i].id);
            if calls[i].completed {
                assert(is_completed(calls, x));
                assert(old_ids.contains(x));
                let k = choose|k: int| 0 <= k < old_ids.len() && old_ids[k] == x;
                assert(all[k] == x);
            } else {
                assert(new_ids.contains(x));
                let k = choose|k: int| 0 <= k < new_ids.len() && new_ids[k] == x;
                assert(all[old_ids.len() + k] == x);
            }
        }
    }
}

// ---------------------------------------------------------------------------
// The laws
// ---------------------------------------------------------------------------

/// An event sends calls only where the answer has ended with it, by `STOP`, `MAX_TOKENS`
/// or `SAFETY`. It then sends every call that was not sent yet, each of them once, and
/// marks them all as sent.
pub proof fn law_event_sends_what_waits(p: Progress, e: Event, m: Option<Model>)
    requires
        sends_once(p),
    ensures
        sends_once(p.event(e, m)),
        ({
            let a = p.candidates(e.candidates, gemini_stream::response_id(e));
            let q = p.event(e, m);
            if gemini_stream::is_end(q.state.stop) {
                &&& sent(q.chunks) == sent(p.chunks) + waiting(a.state.calls)
                &&& q.state.calls == gemini_stream::handed_out(a.state.calls)
            } else {
                &&& sent(q.chunks) == sent(p.chunks)
                &&& q.state.calls == a.state.calls
            }
        }),
{
    let id = gemini_stream::response_id(e);
    let a = p.candidates(e.candidates, id);
    lemma_candidates(p, e.candidates, id);
    let b = if gemini_stream::is_end(a.state.stop) {
        lemma_hand_out(a, Some(id));
        a.hand_out(Some(id))
    } else {
        a
    };
    let q = p.event(e, m);
    if e.usage is Some {
        assert(q.chunks.drop_last() =~= b.chunks);
    }
}

/// A line sends calls only where the answer has ended with it, and it keeps what was sent
/// as it is.
pub proof fn law_line_sends_calls_at_the_end(p: Progress, line: Seq<char>, m: Option<Model>)
    requires
        sends_once(p),
    ensures
        sends_once(p.line(line, m)),
        !gemini_stream::is_end(p.line(line, m).state.stop) ==> sent(p.line(line, m).chunks) == sent(
            p.chunks,
        ),
{
    let l = text::trimmed(line);
    let d = match stream_events::payload(l) {
        Some(d) => d,
        None => l,
    };
    if let Some(t) = json::parsed(d) {
        if let Some(e) = gemini_stream::event_of(t) {
            law_event_sends_what_waits(p, e, m);
        }
    }
}

proof fn lemma_start()
    ensures
        sends_once(start()),
{
}

proof fn lemma_finish(p: Progress)
    requires
        sends_once(p),
    ensures
        sends_once(p.finish()),
{
    lemma_hand_out(p, None);
    let q = p.hand_out(None);
    let sources = gemini_stream::source_chunks(q.state.grounding);
    lemma_sends_nothing(sources);
    lemma_sent_add(q.chunks, sources);
    assert(sent(p.finish().chunks) =~= sent(q.chunks));
}

/// Whatever events make up a response, no call is sent twice, neither before nor at its
/// end, and the calls that are marked as sent are those that were sent.
pub proof fn law_no_call_is_sent_twice(es: Seq<Event>, m: Option<Model>)
    ensures
        sent(after_events(start(), es, m).chunks).no_duplicates(),
        sent(after_events(start(), es, m).finish().chunks).no_duplicates(),
        sends_once(after_events(start(), es, m)),
        sends_once(after_events(start(), es, m).finish()),
    decreases es.len(),
{
    if es.len() == 0 {
        lemma_start();
    } else {
        law_no_call_is_sent_twice(es.drop_last(), m);
        law_event_sends_what_waits(after_events(start(), es.drop_last(), m), es.last(), m);
    }
    lemma_finish(after_events(start(), es, m));
}

/// Whatever lines make up a response, no call is sent twice, neither before nor at its
/// end.
pub proof fn law_lines_send_no_call_twice(lines: Seq<Seq<char>>, m: Option<Model>)
    ensures
        sent(start().lines(lines, m).chunks).no_duplicates(),
        sent(start().lines(lines, m).finish().chunks).no_duplicates(),
        sends_once(start().lines(lines, m)),
    decreases lines.len(),
{
    if lines.len() == 0 {
        lemma_start();
    } else {
        law_lines_send_no_call_twice(lines.drop_last(), m);
        law_line_sends_calls_at_the_end(start().lines(lines.drop_last(), m), lines.last(), m);
    }
    lemma_finish(start().lines(lines, m));
}

} // verus!
