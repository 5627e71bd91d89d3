//! What the calls, the counts and the events of a MiniMax response are read for: a call
//! is made with the name and the parameters that were said, native or written as XML.

use crate::json;
use crate::json::Tree;
use crate::providers::anthropic_laws;
use crate::providers::calls;
use crate::providers::calls::Call;
use crate::providers::minimax_laws;
use crate::providers::minimax_stream;
use crate::providers::minimax_stream::{Choice, Event, Mini, MinimaxUsage, Progress};
use crate::providers::minimax_thoughts;
use crate::providers::openai_laws;
use crate::providers::reasoning;
use crate::providers::stream_events::ToolPart;
use crate::providers::tool_args;
use crate::providers::types;
use crate::providers::types::Chunk;
use crate::text;
use vstd::prelude::*;

verus! {

// ---------------------------------------------------------------------------
// Calls written as XML
// ---------------------------------------------------------------------------

/// The text begins with one character and ends with another, apart from white space.
pub open spec fn is_between(s: Seq<char>, first: char, last: char) -> bool {
    let t = text::trimmed(s);
    t.len() > 0 && t[0] == first && t.last() == last
}

/// The value of a parameter with a text: what the text holds as JSON, where it is written
/// as an object or a list and is JSON; the text itself else.
pub open spec fn is_value_of(v: Tree, s: Seq<char>) -> bool {
    if (is_between(s, '{', '}') || is_between(s, '[', ']')) && json::parsed(text::trimmed(s)) is Some {
        json::parsed(text::trimmed(s)) == Some(v)
    } else {
        v == Tree::Str(s)
    }
}

/// An object with exactly the parameters of pairs of names and texts; of a name that stands
/// twice, the last text counts.
pub open spec fn carries(t: Tree, pairs: Seq<(Seq<char>, Seq<char>)>) -> bool {
    &&& t is Obj
    &&& forall|k: int|
        #![trigger pairs[k]]
        0 <= k < pairs.len() && (forall|j: int| k < j < pairs.len() ==> pairs[j].0 != pairs[k].0)
            ==> t.get(pairs[k].0) is Some && is_value_of(t.get(pairs[k].0)->0, pairs[k].1)
    &&& forall|key: Seq<char>|
        (forall|j: int| 0 <= j < pairs.len() ==> (#[trigger] pairs[j]).0 != key)
            ==> (#[trigger] t.get(key)) is None
}

/// The chunk makes a call that was written as XML in an event.
pub open spec fn is_xml_call(c: Chunk, id: Seq<char>, name: Seq<char>, arguments: Seq<char>) -> bool {
    c == (Chunk::ToolCall {
        call_id: Some("minimax-"@ + id),
        function_id: Some("minimax-"@ + id),
        name: Some(name),
        arguments: Some(arguments),
        call_signature: None,
        id: Some(id),
        signature: None,
    })
}

proof fn lemma_ends_of(t: Seq<char>)
    ensures
        text::begins(t, "{"@) == (t.len() > 0 && t[0] == '{'),
        text::ends(t, "}"@) == (t.len() > 0 && t.last() == '}'),
        text::begins(t, "["@) == (t.len() > 0 && t[0] == '['),
        text::ends(t, "]"@) == (t.len() > 0 && t.last() == ']'),
{
    reveal_strlit("{");
    reveal_strlit("}");
    reveal_strlit("[");
    reveal_strlit("]");
    if t.len() > 0 {
        assert(t.subrange(0, 1) =~= seq![t[0]]);
        assert(t.subrange(t.len() - 1, t.len() as int) =~= seq![t.last()]);
        assert("{"@ =~= seq!['{']);
        assert("}"@ =~= seq!['}']);
        assert("["@ =~= seq!['[']);
        assert("]"@ =~= seq![']']);
        assert(seq![t[0]][0] == t[0]);
        assert(seq![t.last()][0] == t.last());
    }
}

proof fn lemma_parameters_carry(pairs: Seq<(Seq<char>, Seq<char>)>)
    ensures
        carries(minimax_stream::parameters(pairs), pairs),
    decreases pairs.len(),
{
    let t = minimax_stream::parameters(pairs);
    if pairs.len() == 0 {
        assert forall|key: Seq<char>| (#[trigger] t.get(key)) is None by {}
    } else {
        let p = pairs.drop_last();
        lemma_parameters_carry(p);
        let before = minimax_stream::parameters(p);
        let (name, s) = pairs.last();
        let v = minimax_stream::parameter_value(s);
        lemma_ends_of(text::trimmed(s));
        assert(is_value_of(v, s));
        json::law_put_then_get(before, name, v, name);
        assert forall|k: int|
            #![trigger pairs[k]]
            0 <= k < pairs.len() && (forall|j: int|
                k < j < pairs.len() ==> pairs[j].0 != pairs[k].0) implies t.get(
            pairs[k].0,
        ) is Some && is_value_of(t.get(pairs[k].0)->0, pairs[k].1) by {
            if k < p.len() {
                assert(pairs[pairs.len() - 1].0 != pairs[k].0);
                json::law_put_then_get(before, name, v, pairs[k].0);
                assert(p[k] == pairs[k]);
                assert forall|j: int| k < j < p.len() implies p[j].0 != p[k].0 by {
                    assert(pairs[j].0 != pairs[k].0);
                }
            }
        }
        assert forall|key: Seq<char>|
            (forall|j: int| 0 <= j < pairs.len() ==> (#[trigger] pairs[j]).0 != key) implies (
        #[trigger] t.get(key)) is None by {
            assert(pairs[pairs.len() - 1].0 != key);
            json::law_put_then_get(before, name, v, key);
            assert forall|j: int| 0 <= j < p.len() implies (#[trigger] p[j]).0 != key by {
                assert(pairs[j].0 != key);
            }
            assert(before.get(key) is None);
        }
    }
}

/// A complete tool call in the buffer is made as it was written: with the name in its
/// `invoke` tag and with an object of exactly its parameters, printed as JSON. What follows
/// it in the buffer is read in the same way.
pub proof fn law_xml_call_carries_its_parameters(
    inner: Seq<char>,
    rest: Seq<char>,
    id: Seq<char>,
    name: Seq<char>,
    pairs: Seq<(Seq<char>, Seq<char>)>,
)
    requires
        text::find_from(inner + "</minimax:tool_call>"@ + rest, "</minimax:tool_call>"@, 0) == Some(
            inner.len() as int,
        ),
        minimax_stream::first_group(
            "<invoke\\s+name=[\"']([^\"']+)[\"']>"@,
            inner + "</minimax:tool_call>"@,
        ) == Some(name),
        minimax_stream::group_pairs(
            "(?s)<parameter\\s+name=[\"']([^\"']+)[\"']>(.*?)</parameter>"@,
            inner + "</minimax:tool_call>"@,
        ) == pairs,
    ensures
        ({
            let xml = inner + "</minimax:tool_call>"@ + rest;
            let made = minimax_stream::xml_chunks(xml, id);
            &&& made.len() == 1 + minimax_stream::xml_chunks(rest, id).len()
            &&& made.skip(1) == minimax_stream::xml_chunks(rest, id)
            &&& exists|t: Tree| #[trigger]
                carries(t, pairs) && is_xml_call(made[0], id, name, json::printed(t))
            &&& minimax_stream::xml_rest(xml) == minimax_stream::xml_rest(rest)
        }),
{
    let tag = "</minimax:tool_call>"@;
    let xml = inner + tag + rest;
    let end = inner.len() + tag.len();
    minimax_stream::lemma_closing_tag(xml);
    assert(xml.take(end as int) =~= inner + tag);
    assert(xml.skip(end as int) =~= rest);
    lemma_parameters_carry(pairs);
    let t = minimax_stream::parameters(pairs);
    let made = minimax_stream::xml_chunks(xml, id);
    assert(made.skip(1) =~= minimax_stream::xml_chunks(rest, id));
    assert(carries(t, pairs) && is_xml_call(made[0], id, name, json::printed(t)));
}

/// A complete tool call without a name is handed on as it was written.
pub proof fn law_nameless_xml_is_handed_on(inner: Seq<char>, id: Seq<char>)
    requires
        text::find_from(inner + "</minimax:tool_call>"@, "</minimax:tool_call>"@, 0) == Some(
            inner.len() as int,
        ),
        minimax_stream::first_group(
            "<invoke\\s+name=[\"']([^\"']+)[\"']>"@,
            inner + "</minimax:tool_call>"@,
        ) is None,
    ensures
        minimax_stream::xml_chunks(inner + "</minimax:tool_call>"@, id).len() == 1,
        is_xml_call(
            minimax_stream::xml_chunks(inner + "</minimax:tool_call>"@, id)[0],
            id,
            "xml_tool_call"@,
            json::printed(Tree::Str(inner + "</minimax:tool_call>"@)),
        ),
{
    let tag = "</minimax:tool_call>"@;
    let xml = inner + tag;
    minimax_stream::lemma_closing_tag(xml);
    assert(xml.take(xml.len() as int) =~= xml);
    assert(xml.skip(xml.len() as int) =~= Seq::empty());
    text::lemma_find_from(Seq::empty(), tag, 0);
    assert(minimax_stream::xml_chunks(Seq::empty(), id) =~= Seq::empty());
}

/// What is left of the buffer is its end, and it holds no complete tool call any more.
pub proof fn law_rest_holds_no_call(xml: Seq<char>)
    ensures
        text::find_from(minimax_stream::xml_rest(xml), "</minimax:tool_call>"@, 0) is None,
        text::ends(xml, minimax_stream::xml_rest(xml)),
        text::find_from(xml, "</minimax:tool_call>"@, 0) is None ==> minimax_stream::xml_rest(xml)
            == xml,
    decreases xml.len(),
{
    let tag = "</minimax:tool_call>"@;
    minimax_stream::lemma_closing_tag(xml);
    let r = minimax_stream::xml_rest(xml);
    match text::find_from(xml, tag, 0) {
        Some(i) => {
            let after = xml.skip(i + tag.len());
            law_rest_holds_no_call(after);
            assert(xml.subrange(xml.len() - r.len(), xml.len() as int) =~= after.subrange(
                after.len() - r.len(),
                after.len() as int,
            ));
        },
        None => {
            assert(xml.subrange(0, xml.len() as int) =~= xml);
        },
    }
}

/// Content that holds a tool call, or continues one, is read as XML and never shown as text:
/// the complete calls of the buffer are made after pending text, and the rest stays in it.
/// Other content is told apart into text and thoughts.
pub proof fn law_content_goes_where_it_belongs(p: Progress, t: Seq<char>, id: Seq<char>)
    ensures
        ({
            let q = p.content(t, id);
            let as_xml = text::has(t, "<minimax:tool_call>"@) || p.state.xml.len() > 0;
            let all = p.state.xml + t;
            &&& as_xml && text::byte_len(p.state.xml) + text::byte_len(t)
                <= minimax_stream::MAX_XML_TOOL_CALL_BUFFER ==> q.chunks == p.flush(id).chunks
                + minimax_stream::xml_chunks(all, id) && q.state.xml == minimax_stream::xml_rest(
                all,
            ) && q.state.pending == p.flush(id).state.pending
            &&& !as_xml ==> {
                let told = minimax_laws::told(p.state.in_tag, p.state.carry + t);
                &&& minimax_laws::visible_text(q.chunks) + q.state.pending
                    == minimax_laws::visible_text(p.chunks) + p.state.pending + told.visible
                &&& q.state.in_tag == told.in_tag
                &&& q.state.carry == told.carry
                &&& q.state.emitted == minimax_thoughts::thinks(
                    p.state.emitted,
                    p.state.in_tag,
                    p.state.carry + t,
                )
                &&& minimax_laws::remembers(p) ==> minimax_laws::remembers(q)
                &&& q.state.xml == p.state.xml
            }
            &&& q.state.calls == p.state.calls
            &&& q.state.last_stop == p.state.last_stop
        }),
{
    let q = p.content(t, id);
    let as_xml = text::has(t, "<minimax:tool_call>"@) || p.state.xml.len() > 0;
    lemma_steps_keep(Mini { carry: Seq::empty(), ..p.state }, p.state.carry + t, id);
    if !as_xml {
        let o = minimax_stream::content_outcome(p.state, t, id);
        minimax_laws::lemma_outcome(p.state, t, id);
        minimax_laws::lemma_texts_add(p.chunks, o.1);
        minimax_thoughts::lemma_thinks(
            Mini { carry: Seq::empty(), ..p.state },
            p.state.carry + t,
            id,
        );
        let told = minimax_laws::told(p.state.in_tag, p.state.carry + t);
        assert(minimax_laws::visible_text(p.chunks) + (minimax_laws::visible_text(o.1)
            + q.state.pending) =~= minimax_laws::visible_text(q.chunks) + q.state.pending);
        assert(minimax_laws::visible_text(p.chunks) + (p.state.pending + told.visible)
            =~= minimax_laws::visible_text(p.chunks) + p.state.pending + told.visible);
        assert(p.state.emitted + minimax_laws::reasoning_text(o.1) == q.state.emitted);
    }
}

proof fn lemma_steps_keep(s: Mini, rest: Seq<char>, id: Seq<char>)
    ensures
        ({
            let o = minimax_stream::content_steps(s, rest, id).state;
            &&& o.calls == s.calls
            &&& o.last_stop == s.last_stop
            &&& o.xml == s.xml
        }),
    decreases rest.len(),
{
    if rest.len() > 0 {
        minimax_stream::lemma_next_marker(rest, s.in_tag);
        if let Some((i, n)) = minimax_stream::next_marker(rest, s.in_tag) {
            if !s.in_tag {
                let shown = Mini { pending: s.pending + rest.take(i), signature: Some(id), ..s };
                let next = Mini { in_tag: true, ..minimax_stream::flushed(shown) };
                lemma_steps_keep(next, rest.skip(i + n), id);
            } else {
                let next = Mini { in_tag: false, ..minimax_stream::reasoned(s, rest.take(i)) };
                lemma_steps_keep(next, rest.skip(i + n), id);
            }
        }
    }
}

// ---------------------------------------------------------------------------
// Native calls
// ---------------------------------------------------------------------------

/// A fragment of arguments begins a JSON value.
pub open spec fn begins_value(t: Seq<char>) -> bool {
    t.len() > 0 && (t[0] == '{' || t[0] == '[' || t[0] == '"')
}

/// A fragment changes only the call of its own index. There it gives the identifier and the
/// name that it tells, and its arguments are added at the end. A new identifier under an
/// index starts the call over.
pub proof fn law_fragments_reach_their_own_call(table: Seq<Call>, p: ToolPart, other: nat)
    requires
        calls::in_order(table),
    ensures
        ({
            let old_call = calls::call_at(table, p.index);
            let new_call = calls::call_at(minimax_stream::with_part(table, p), p.index);
            let restarts = p.id is Some && old_call.id.len() > 0 && p.id->0 != old_call.id;
            let kept = if restarts {
                Seq::empty()
            } else {
                old_call.arguments
            };
            let told = openai_laws::told_arguments(p);
            &&& other != p.index ==> calls::call_at(minimax_stream::with_part(table, p), other)
                == calls::call_at(table, other)
            &&& new_call.index == p.index
            &&& new_call.completed == old_call.completed
            &&& p.id is None ==> new_call.id == old_call.id
            &&& p.id is Some ==> new_call.id == p.id->0
            &&& openai_laws::told_name(p).len() > 0 ==> new_call.name == openai_laws::told_name(p)
            &&& p.function is None && !restarts ==> new_call.name == old_call.name
            &&& told.len() == 0 ==> new_call.arguments == kept
            &&& text::trimmed(told).len() > 0 && (kept.len() > 0 || begins_value(told))
                && text::byte_len(kept) + text::byte_len(told) <= types::MAX_TOOL_ARGUMENT_SIZE
                ==> new_call.arguments == kept + told
        }),
{
    let c0 = calls::call_at(table, p.index);
    openai_laws::lemma_call_fits(table, p.index);
    assert(text::byte_len(Seq::<char>::empty()) == 0);
    let a = match p.id {
        None => table,
        Some(id) => if c0.id != id && c0.id.len() > 0 {
            calls::with_call(
                table,
                Call { id, name: Seq::empty(), arguments: Seq::empty(), ..c0 },
            )
        } else {
            calls::with_call(table, Call { id, ..c0 })
        },
    };
    if let Some(id) = p.id {
        if c0.id != id && c0.id.len() > 0 {
            openai_laws::lemma_put(
                table,
                Call { id, name: Seq::empty(), arguments: Seq::empty(), ..c0 },
                other,
            );
        } else {
            openai_laws::lemma_put(table, Call { id, ..c0 }, other);
        }
    }
    openai_laws::lemma_call_fits(a, p.index);
    let c1 = calls::call_at(a, p.index);
    let told = openai_laws::told_arguments(p);
    if let Some(f) = p.function {
        let args = match f.arguments {
            Some(t) => minimax_stream::grown_args(c1.arguments, t),
            None => c1.arguments,
        };
        tool_args::law_arguments_stay_within_limit(c1.arguments, told);
        let c2 = Call {
            name: match f.name {
                Some(n) => n,
                None => c1.name,
            },
            arguments: args,
            ..c1
        };
        openai_laws::lemma_put(a, c2, other);
        reveal_strlit("{");
        reveal_strlit("[");
        reveal_strlit("\"");
        lemma_ends_of(told);
        if told.len() > 0 {
            assert(told.subrange(0, 1) =~= seq![told[0]]);
            assert("\""@ =~= seq!['"']);
        } else {
            assert(told =~= Seq::empty());
            assert(text::trimmed(told).len() == 0);
        }
        if text::byte_len(c1.arguments) + text::byte_len(told) <= types::MAX_TOOL_ARGUMENT_SIZE {
            tool_args::law_fitting_fragment_is_whole(c1.arguments, told);
        }
    } else {
        assert(told =~= Seq::empty());
        assert(text::trimmed(Seq::<char>::empty()).len() == 0);
    }
}

/// Where the model ended with tool calls, every call that is complete is made after pending
/// text, in the order of the indices; for any other reason none is made yet.
pub proof fn law_calls_are_made_at_their_end(p: Progress, reason: Seq<char>, id: Seq<char>)
    ensures
        p.end(None, id) == p,
        p.end(Some(reason), id).state.last_stop == Some(reason),
        reason == "tool_calls"@ || reason == "tool_call"@ ==> p.end(Some(reason), id).chunks
            == p.flush(id).chunks + calls::ready_chunks(p.state.calls, Some(id)) && p.end(
            Some(reason),
            id,
        ).state.calls == calls::handed_out(p.state.calls),
        reason != "tool_calls"@ && reason != "tool_call"@ ==> p.end(Some(reason), id).chunks
            == p.chunks && p.end(Some(reason), id).state.calls == p.state.calls,
{
}

/// Pending text is shown whole and once, as text of the response.
pub proof fn law_pending_text_is_shown(p: Progress, id: Seq<char>)
    ensures
        p.flush(id).state.pending.len() == 0,
        p.state.pending.len() == 0 ==> p.flush(id) == p,
        p.state.pending.len() > 0 ==> p.flush(id).chunks == p.chunks.push(
            Chunk::Text {
                text: p.state.pending,
                id: Some(id),
                signature: p.state.signature,
            },
        ),
        p.flush(id).state.calls == p.state.calls,
        p.flush(id).state.emitted == p.state.emitted,
{
    assert(p.chunks + Seq::<Chunk>::empty() =~= p.chunks);
    assert(p.chunks + minimax_stream::flush_chunks(p.state, id) =~= p.flush(id).chunks);
    if p.state.pending.len() > 0 {
        assert(p.flush(id).chunks =~= p.chunks.push(
            Chunk::Text { text: p.state.pending, id: Some(id), signature: p.state.signature },
        ));
    }
}

/// A reasoning delta is shown whole after pending text, but for a part that repeats the end
/// of what was shown.
pub proof fn law_reasoning_is_shown(p: Progress, d: Seq<char>, id: Seq<char>)
    ensures
        ({
            let q = p.reason(d, id);
            let f = p.flush(id);
            &&& text::begins(q.state.emitted, p.state.emitted)
            &&& text::ends(q.state.emitted, d)
            &&& q.state.emitted.len() == p.state.emitted.len() ==> q.chunks == f.chunks
            &&& q.state.emitted.len() > p.state.emitted.len() ==> q.chunks == f.chunks.push(
                Chunk::Reasoning {
                    reasoning: q.state.emitted.skip(p.state.emitted.len() as int),
                    details: None,
                    signature: None,
                    redacted_data: None,
                    id: Some(id),
                },
            )
        }),
{
    let e = p.state.emitted;
    let q = p.reason(d, id);
    let f = p.flush(id);
    reasoning::law_overlap_is_longest(e, d);
    reasoning::law_fresh_completes_delta(e, d);
    let new = reasoning::fresh(e, d);
    let k = reasoning::overlap(e, d);
    assert(q.state.emitted =~= e + new);
    assert(q.state.emitted.subrange(0, e.len() as int) =~= e);
    assert(q.state.emitted.skip(e.len() as int) =~= new);
    assert(q.state.emitted.subrange(
        q.state.emitted.len() - d.len(),
        q.state.emitted.len() as int,
    ) =~= (e + new).skip(e.len() - k));
    assert(f.chunks + Seq::<Chunk>::empty() =~= f.chunks);
    if new.len() > 0 {
        assert(q.chunks =~= f.chunks.push(q.chunks.last()));
    }
}

/// A choice does what each of its members does: its reasoning, its details, its content,
/// its fragments of calls and the reason for its end all count, in this order.
pub proof fn law_choice_counts_every_member(p: Progress, c: Choice, id: Seq<char>)
    ensures
        ({
            let none = Choice {
                content: None,
                tools: Seq::empty(),
                reasoning: None,
                details: Seq::empty(),
                finish: None,
            };
            let a = p.choice(Choice { reasoning: c.reasoning, ..none }, id);
            let b = a.choice(Choice { details: c.details, ..none }, id);
            let d = b.choice(Choice { content: c.content, ..none }, id);
            let e = d.choice(Choice { tools: c.tools, ..none }, id);
            let f = e.choice(Choice { finish: c.finish, ..none }, id);
            &&& p.choice(none, id) == p
            &&& p.choice(c, id) == f
            &&& c.reasoning is Some ==> a == p.reason(c.reasoning->0, id)
            &&& c.details.len() == 1 ==> b == a.reason(c.details[0], id)
            &&& c.content is Some ==> d == b.content(c.content->0, id)
            &&& c.tools.len() == 1 ==> e == d.tool(c.tools[0], id)
            &&& f == e.end(c.finish, id)
        }),
{
    reveal_with_fuel(Progress::reason_all, 2);
    reveal_with_fuel(Progress::tools, 2);
    if c.details.len() == 1 {
        assert(c.details.drop_last() =~= Seq::empty());
    }
    if c.tools.len() == 1 {
        assert(c.tools.drop_last() =~= Seq::empty());
    }
}

/// A fragment of a call that was not made yet is taken into the table after pending text.
pub proof fn law_fragment_is_taken_in(p: Progress, part: ToolPart, id: Seq<char>)
    ensures
        !calls::call_at(p.state.calls, part.index).completed ==> p.tool(part, id).state.calls
            == minimax_stream::with_part(p.state.calls, part) && p.tool(part, id).chunks == p.flush(
            id,
        ).chunks,
        calls::call_at(p.state.calls, part.index).completed ==> p.tool(part, id) == p,
{
}

/// At the end of a response, what was held back and pending text are shown and the calls
/// that are left are made.
pub proof fn law_the_end_shows_what_is_left(p: Progress)
    requires
        !text::has(p.state.xml, "<minimax:tool_call>"@),
    ensures
        ({
            let q = p.finish();
            let made = calls::ready_chunks(p.state.calls, None);
            &&& q.chunks.len() >= made.len()
            &&& q.chunks.skip(q.chunks.len() - made.len()) == made
            &&& minimax_laws::visible_text(q.chunks.take(q.chunks.len() - made.len()))
                == minimax_laws::visible_text(p.chunks) + p.state.pending + (if p.state.in_tag {
                Seq::empty()
            } else {
                p.state.carry
            })
            &&& q.state.pending.len() == 0
            &&& q.state.carry.len() == 0
            &&& q.state.calls == calls::handed_out(p.state.calls)
        }),
{
    let q = p.finish();
    let id = "flush"@;
    let made = calls::ready_chunks(p.state.calls, None);
    let shown = minimax_thoughts::ended((p.state, p.chunks), id);
    minimax_thoughts::lemma_ended((p.state, p.chunks), id);
    assert(q.chunks =~= shown + made);
    assert(q.chunks.skip(q.chunks.len() - made.len()) =~= made);
    assert(q.chunks.take(q.chunks.len() - made.len()) =~= shown);
}

// ---------------------------------------------------------------------------
// Tokens and reading
// ---------------------------------------------------------------------------

/// Token counts are handed on: the input tokens that were not read from a cache and those
/// that were make up the input; the rest is as it was told.
pub proof fn law_token_counts_are_handed_on(
    u: MinimaxUsage,
    stop: Option<Seq<char>>,
    id: Seq<char>,
)
    requires
        u.cached_tokens is Some ==> u.cached_tokens->0 <= u.prompt_tokens,
    ensures
        ({
            let v = minimax_stream::usage_value(u, stop, id);
            &&& u.cached_tokens is Some ==> v.input_tokens + u.cached_tokens->0 == u.prompt_tokens
            &&& u.cached_tokens is None ==> v.input_tokens == u.prompt_tokens
            &&& v.cache_read_tokens == u.cached_tokens
            &&& v.cache_write_tokens == u.cache_miss_tokens
            &&& v.output_tokens == u.completion_tokens
            &&& v.stop_reason == stop
            &&& v.id == Some(id)
        }),
{
}

/// An event does what its choice does, and then shows its token counts once, with the
/// reason for the end.
pub proof fn law_event_counts_choice_and_tokens(p: Progress, e: Event)
    ensures
        e.choice is Some && e.usage is None ==> p.event(e) == p.choice(e.choice->0, e.id),
        e.choice is None && e.usage is None ==> p.event(e) == p,
        e.usage is Some ==> ({
            let q = p.event(e);
            let without = p.event(Event { usage: None, ..e });
            &&& q.state == without.state
            &&& q.chunks.len() == without.chunks.len() + 1
            &&& q.chunks.drop_last() == without.chunks
            &&& q.chunks.last() matches Chunk::Usage(v) && v.output_tokens
                == e.usage->0.completion_tokens && v.id == Some(e.id) && v.stop_reason == (
            match e.choice {
                Some(c) => c.finish,
                None => None,
            })
        }),
{
    if e.usage is Some {
        assert(p.event(e).chunks.drop_last() =~= p.event(Event { usage: None, ..e }).chunks);
    }
}

/// What an event tells is what its members hold: the identifier, and of the first choice the
/// content, the reasoning, its details, the reason for its end and the fragments of calls.
pub proof fn law_events_are_read(t: Tree)
    requires
        t is Obj,
        minimax_stream::event_of(t) is Some,
    ensures
        ({
            let e = minimax_stream::event_of(t)->0;
            let choices = t.get("choices"@);
            &&& t.get("id"@) == Some(Tree::Str(e.id))
            &&& choices is Some && choices->0 is Arr
            &&& (choices->0->Arr_0).len() == 0 ==> e.choice is None
            &&& (choices->0->Arr_0).len() > 0 && choices->0->Arr_0[0] is Obj ==> e.choice is Some
                && openai_laws::tells(
                choices->0->Arr_0[0],
                "finish_reason"@,
                (e.choice->0).finish,
            )
            &&& (choices->0->Arr_0).len() > 0 && choices->0->Arr_0[0].get("delta"@) is Some
                && choices->0->Arr_0[0].get("delta"@)->0 is Obj ==> {
                let d = choices->0->Arr_0[0].get("delta"@)->0;
                let c = e.choice->0;
                &&& openai_laws::tells(d, "content"@, c.content)
                &&& openai_laws::tells(d, "reasoning_content"@, c.reasoning)
                &&& d.get("tool_calls"@) is Some ==> d.get("tool_calls"@)->0 is Arr
                    && openai_laws::reads_fragments(d.get("tool_calls"@)->0->Arr_0, c.tools)
                &&& d.get("reasoning_details"@) is Some ==> d.get("reasoning_details"@)->0 is Arr
                    && reads_details(d.get("reasoning_details"@)->0->Arr_0, c.details)
            }
        }),
{
    let e = minimax_stream::event_of(t)->0;
    let list = t.get("choices"@)->0->Arr_0;
    if list.len() > 0 {
        assert(minimax_stream::choice_of(list[0]) is Some);
        if list[0].get("delta"@) is Some && list[0].get("delta"@)->0 is Obj {
            let d = list[0].get("delta"@)->0;
            if let Some(Tree::Arr(v)) = d.get("tool_calls"@) {
                openai_laws::lemma_fragments_are_read(v, true);
            }
            if let Some(Tree::Arr(v)) = d.get("reasoning_details"@) {
                lemma_details_are_read(v);
            }
        }
    }
}

/// Details tell their texts, in order.
pub open spec fn reads_details(v: Seq<Tree>, ds: Seq<Seq<char>>) -> bool {
    &&& ds.len() == v.len()
    &&& forall|k: int|
        0 <= k < v.len() && (#[trigger] v[k]) is Obj ==> v[k].get("text"@) == Some(
            Tree::Str(ds[k]),
        )
}

proof fn lemma_details_are_read(v: Seq<Tree>)
    requires
        minimax_stream::detail_texts(v) is Some,
    ensures
        reads_details(v, minimax_stream::detail_texts(v)->0),
    decreases v.len(),
{
    if v.len() > 0 {
        lemma_details_are_read(v.drop_last());
        let all = minimax_stream::detail_texts(v)->0;
        let few = minimax_stream::detail_texts(v.drop_last())->0;
        assert forall|k: int| 0 <= k < v.len() && (#[trigger] v[k]) is Obj implies v[k].get(
            "text"@,
        ) == Some(Tree::Str(all[k])) by {
            if k < v.len() - 1 {
                assert(v.drop_last()[k] == v[k]);
                assert(all[k] == few[k]);
            }
        }
    }
}

/// A line of data that is JSON and describes an event does what the event does. A line of
/// data that does not is reported with the beginning of what it holds.
pub proof fn law_lines_tell_events(p: Progress, line: Seq<char>, d: Seq<char>, t: Tree, e: Event)
    requires
        text::trimmed(line) == "data: "@ + d,
        d != "[DONE]"@,
    ensures
        json::parsed(d) == Some(t) && minimax_stream::event_of(t) == Some(e) ==> p.line(line)
            == p.event(e),
        json::parsed(d) is None && d.len() <= 200 ==> p.line(line).chunks == p.chunks.push(
            Chunk::Error("MiniMax SSE parse failure: "@ + d),
        ) && p.line(line).state == p.state,
{
    anthropic_laws::lemma_data_line(d);
    reveal_strlit("[DONE]");
    reveal_strlit("data: ");
    let l = "data: "@ + d;
    assert(l[0] == 'd');
    assert("[DONE]"@[0] == '[');
}

} // verus!
