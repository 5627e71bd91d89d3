//! What a completion that comes as one body is decoded for: its reasoning, its answer, its
//! refusal, its calls and its token counts are all handed on.

use crate::json;
use crate::json::Tree;
use crate::providers::anthropic_laws;
use crate::providers::errors::Failure;
use crate::providers::line_laws;
use crate::providers::minimax_laws;
use crate::providers::openai_completion;
use crate::providers::openai_completion::{Answer, Completion, WholeCall};
use crate::providers::openai_laws;
use crate::providers::openai_stream;
use crate::providers::openai_stream::OpenAiUsage;
use crate::providers::sse;
use crate::providers::stream_events::FunctionPart;
use crate::providers::types::{Chunk, CompatModel};
use vstd::prelude::*;

verus! {

/// The text of an optional text.
pub open spec fn or_nothing(t: Option<Seq<char>>) -> Seq<char> {
    if t is Some {
        t->0
    } else {
        Seq::empty()
    }
}

proof fn lemma_calls_are_silent(v: Seq<WholeCall>, id: Option<Seq<char>>)
    ensures
        forall|i: int|
            0 <= i < openai_completion::calls_chunks(v, id).len() ==> !(
            #[trigger] openai_completion::calls_chunks(v, id)[i] is Text) && !(
            openai_completion::calls_chunks(v, id)[i] is Reasoning),
    decreases v.len(),
{
    if v.len() > 0 {
        lemma_calls_are_silent(v.drop_last(), id);
        let few = openai_completion::calls_chunks(v.drop_last(), id);
        let own = openai_completion::call_chunks(v.last(), id);
        let all = openai_completion::calls_chunks(v, id);
        assert forall|i: int| 0 <= i < all.len() implies !(#[trigger] all[i] is Text) && !(
        all[i] is Reasoning) by {
            if i < few.len() {
                assert(all[i] == few[i]);
            } else {
                assert(all[i] == own[i - few.len()]);
            }
        }
    }
}

/// The content of an answer is shown as text and its reasoning as reasoning, each whole and
/// neither in the other's place.
pub proof fn law_answer_is_shown(c: Completion, a: Answer, m: Option<CompatModel>)
    requires
        c.answer == Some(a),
    ensures
        minimax_laws::visible_text(openai_completion::completion_chunks(c, m)) == or_nothing(
            a.content,
        ),
        minimax_laws::reasoning_text(openai_completion::completion_chunks(c, m)) == or_nothing(
            a.reasoning,
        ),
        a.refusal is Some && a.refusal->0.len() > 0 ==> openai_completion::completion_chunks(
            c,
            m,
        ).contains(Chunk::Error("OpenAI model refused: "@ + a.refusal->0)),
{
    let all = openai_completion::completion_chunks(c, m);
    let reasoning = match openai_completion::filled(a.reasoning) {
        Some(t) => seq![
            Chunk::Reasoning {
                reasoning: t,
                details: None,
                signature: None,
                redacted_data: None,
                id: c.id,
            },
        ],
        None => Seq::empty(),
    };
    let content = match openai_completion::filled(a.content) {
        Some(t) => seq![Chunk::Text { text: t, id: c.id, signature: None }],
        None => Seq::empty(),
    };
    let refusal = match openai_completion::filled(a.refusal) {
        Some(t) => seq![Chunk::Error("OpenAI model refused: "@ + t)],
        None => Seq::empty(),
    };
    let calls = if a.finish == Some("content_filter"@) {
        Seq::empty()
    } else {
        openai_completion::calls_chunks(a.calls, c.id)
    };
    lemma_calls_are_silent(a.calls, c.id);
    openai_laws::lemma_silent(calls);
    openai_laws::lemma_silent(refusal);
    minimax_laws::lemma_texts_add(reasoning, content);
    minimax_laws::lemma_texts_add(reasoning + content, refusal);
    minimax_laws::lemma_texts_add(reasoning + content + refusal, calls);
    let body = reasoning + content + refusal + calls;
    assert(all.drop_last() =~= body);
    if reasoning.len() > 0 {
        minimax_laws::lemma_one(reasoning[0]);
        assert(reasoning =~= seq![reasoning[0]]);
    } else {
        openai_laws::lemma_silent(reasoning);
        assert(or_nothing(a.reasoning) =~= Seq::empty());
    }
    if content.len() > 0 {
        minimax_laws::lemma_one(content[0]);
        assert(content =~= seq![content[0]]);
    } else {
        openai_laws::lemma_silent(content);
        assert(or_nothing(a.content) =~= Seq::empty());
    }
    assert(minimax_laws::visible_text(all) =~= or_nothing(a.content));
    assert(minimax_laws::reasoning_text(all) =~= or_nothing(a.reasoning));
    if refusal.len() > 0 {
        assert(all[(reasoning + content).len() as int] == refusal[0]);
    }
}

/// A call of a completion: an identifier, a name that can be handed on, and arguments.
pub open spec fn is_call(c: WholeCall, id: Seq<char>, name: Seq<char>, arguments: Seq<char>) -> bool {
    &&& c.id == Some(id)
    &&& id.len() > 0
    &&& c.function == Some(FunctionPart { name: Some(name), arguments: Some(arguments) })
    &&& openai_stream::is_safe_name(name)
}

/// Every call of an answer is announced and made, with its identifier, its name and its
/// arguments, unless a filter ended the answer.
pub proof fn law_calls_are_made(
    c: Completion,
    a: Answer,
    m: Option<CompatModel>,
    k: int,
    id: Seq<char>,
    name: Seq<char>,
    arguments: Seq<char>,
)
    requires
        c.answer == Some(a),
        a.finish != Some("content_filter"@),
        0 <= k < a.calls.len(),
        is_call(a.calls[k], id, name, arguments),
        arguments.len() > 0,
        json::parsed(arguments) is Some,
    ensures
        ({
            let all = openai_completion::completion_chunks(c, m);
            &&& all.contains(Chunk::Started { call_id: id, name })
            &&& all.contains(
                Chunk::ToolCall {
                    call_id: Some(id),
                    function_id: Some(id),
                    name: Some(name),
                    arguments: Some(arguments),
                    call_signature: None,
                    id: c.id,
                    signature: None,
                },
            )
        }),
{
    let all = openai_completion::completion_chunks(c, m);
    let calls = openai_completion::calls_chunks(a.calls, c.id);
    lemma_call_is_made(a.calls, c.id, k, id, name, arguments);
    let made = Chunk::ToolCall {
        call_id: Some(id),
        function_id: Some(id),
        name: Some(name),
        arguments: Some(arguments),
        call_signature: None,
        id: c.id,
        signature: None,
    };
    let i = choose|i: int|
        0 <= i < calls.len() - 1 && #[trigger] calls[i] == (Chunk::Started { call_id: id, name })
            && calls[i + 1] == made;
    let start = all.len() - 1 - calls.len();
    assert(all[start + i] == calls[i]);
    assert(all[start + i + 1] == calls[i + 1]);
}

proof fn lemma_call_is_made(
    v: Seq<WholeCall>,
    shown: Option<Seq<char>>,
    k: int,
    id: Seq<char>,
    name: Seq<char>,
    arguments: Seq<char>,
)
    requires
        0 <= k < v.len(),
        is_call(v[k], id, name, arguments),
        arguments.len() > 0,
        json::parsed(arguments) is Some,
    ensures
        ({
            let calls = openai_completion::calls_chunks(v, shown);
            exists|i: int|
                0 <= i < calls.len() - 1 && #[trigger] calls[i] == (Chunk::Started {
                    call_id: id,
                    name,
                }) && calls[i + 1] == (Chunk::ToolCall {
                    call_id: Some(id),
                    function_id: Some(id),
                    name: Some(name),
                    arguments: Some(arguments),
                    call_signature: None,
                    id: shown,
                    signature: None,
                })
        }),
    decreases v.len(),
{
    let all = openai_completion::calls_chunks(v, shown);
    let few = openai_completion::calls_chunks(v.drop_last(), shown);
    if k == v.len() - 1 {
        line_laws::law_safe_names_stay(name);
        let own = openai_completion::call_chunks(v.last(), shown);
        assert(all[few.len() as int] == own[0]);
        assert(all[few.len() as int + 1] == own[1]);
    } else {
        lemma_call_is_made(v.drop_last(), shown, k, id, name, arguments);
        let i = choose|i: int|
            0 <= i < few.len() - 1 && #[trigger] few[i] == (Chunk::Started { call_id: id, name })
                && few[i + 1] == (Chunk::ToolCall {
                call_id: Some(id),
                function_id: Some(id),
                name: Some(name),
                arguments: Some(arguments),
                call_signature: None,
                id: shown,
                signature: None,
            });
        assert(all[i] == few[i]);
        assert(all[i + 1] == few[i + 1]);
    }
}

/// A completion ends with its token counts, as they are in a stream, and with its reason for
/// stopping; an answer that a filter ended makes no call.
pub proof fn law_token_counts_come_last(c: Completion, a: Answer, u: OpenAiUsage, m: Option<CompatModel>, k: int)
    requires
        c.answer == Some(a),
        c.usage == Some(u),
        u.cached_tokens is Some,
        u.cached_tokens->0 <= u.prompt_tokens,
    ensures
        ({
            let all = openai_completion::completion_chunks(c, m);
            let v = all.last()->Usage_0;
            &&& all.len() > 0 && all.last() is Usage
            &&& v.input_tokens + u.cached_tokens->0 == u.prompt_tokens
            &&& v.cache_read_tokens == u.cached_tokens
            &&& v.output_tokens == u.completion_tokens
            &&& v.reasoning_tokens == u.reasoning_tokens
            &&& v.stop_reason == a.finish
            &&& v.id == c.id
            &&& a.finish == Some("content_filter"@) && 0 <= k < all.len() ==> !(
            all[k] is ToolCall) && !(all[k] is Started)
        }),
{
    openai_laws::law_token_counts_are_handed_on(u, c.id, a.finish, m);
}

/// A completion is read from its members: content, reasoning, refusal and calls of the
/// first choice, and its reason for stopping.
pub proof fn law_completions_are_read(
    t: Tree,
    choice: Tree,
    message: Tree,
    id: Seq<char>,
    content: Seq<char>,
    reasoning: Seq<char>,
    finish: Seq<char>,
)
    requires
        t is Obj,
        anthropic_laws::holds_text(t, "id"@, id),
        t.get("choices"@) == Some(Tree::Arr(seq![choice])),
        t.get("usage"@) is None,
        choice is Obj,
        anthropic_laws::holds_text(choice, "finish_reason"@, finish),
        choice.get("message"@) == Some(message),
        message is Obj,
        anthropic_laws::holds_text(message, "content"@, content),
        anthropic_laws::holds_text(message, "reasoning_content"@, reasoning),
        message.get("refusal"@) is None,
        message.get("tool_calls"@) is None,
    ensures
        openai_completion::completion_of(t) == Some(
            Completion {
                id: Some(id),
                answer: Some(
                    Answer {
                        content: Some(content),
                        reasoning: Some(reasoning),
                        refusal: None,
                        calls: Seq::empty(),
                        finish: Some(finish),
                    },
                ),
                usage: None,
            },
        ),
{
    let choices = seq![choice];
    assert(openai_completion::all_answers(choices)) by {
        assert forall|i: int| 0 <= i < choices.len() implies openai_completion::answer_of(
            #[trigger] choices[i],
        ) is Some by {
            assert(choices[i] == choice);
        }
    }
    assert(choices[0] == choice);
}

/// A call of a completion is read from its members.
pub proof fn law_calls_are_read(t: Tree, f: Tree, id: Seq<char>, name: Seq<char>, arguments: Seq<char>)
    requires
        t is Obj,
        anthropic_laws::holds_text(t, "id"@, id),
        t.get("function"@) == Some(f),
        f is Obj,
        anthropic_laws::holds_text(f, "name"@, name),
        anthropic_laws::holds_text(f, "arguments"@, arguments),
    ensures
        openai_completion::call_of(t) == Some(
            WholeCall {
                id: Some(id),
                function: Some(FunctionPart { name: Some(name), arguments: Some(arguments) }),
            },
        ),
{
}

/// The calls of a list are read one by one, in order.
pub proof fn law_lists_of_calls_are_read(ts: Seq<Tree>)
    requires
        forall|k: int| 0 <= k < ts.len() ==> openai_completion::call_of(#[trigger] ts[k]) is Some,
    ensures
        openai_completion::all_calls(ts) is Some,
        openai_completion::all_calls(ts)->0.len() == ts.len(),
        forall|k: int|
            0 <= k < ts.len() ==> openai_completion::call_of(#[trigger] ts[k]) == Some(
                openai_completion::all_calls(ts)->0[k],
            ),
    decreases ts.len(),
{
    if ts.len() > 0 {
        let p = ts.drop_last();
        assert forall|k: int| 0 <= k < p.len() implies openai_completion::call_of(
            #[trigger] p[k],
        ) is Some by {
            assert(openai_completion::call_of(ts[k]) is Some);
        }
        law_lists_of_calls_are_read(p);
        assert(openai_completion::call_of(ts[ts.len() - 1]) is Some);
        assert forall|k: int| 0 <= k < ts.len() implies openai_completion::call_of(
            #[trigger] ts[k],
        ) == Some(openai_completion::all_calls(ts)->0[k]) by {
            if k < p.len() {
                assert(p[k] == ts[k]);
            }
        }
    }
}

/// A body that is a completion is decoded as one; any other body is decoded as a stream
/// where it looks like one, and is an error else.
pub proof fn law_bodies_are_decoded(
    body: Seq<u8>,
    read: Option<Tree>,
    reason: Seq<char>,
    m: Option<CompatModel>,
)
    ensures
        ({
            let r = openai_completion::body_outcome(body, read, reason, m);
            let c = openai_completion::completion_of(read->0);
            &&& read is Some && c is Some ==> r == Ok::<Seq<Chunk>, Failure>(
                openai_completion::completion_chunks(c->0, m),
            )
            &&& (read is None || c is None) && !openai_completion::looks_like_sse(
                sse::lossy(body),
            ) ==> r is Err
            &&& (read is None || c is None) && openai_completion::looks_like_sse(sse::lossy(body))
                ==> r is Ok
        }),
{
}

} // verus!
