//! What values stand for: a chunk is what it holds, a scripted answer plays what was
//! written, a provider is chosen by its key, and a marker that is cut off is held back.

use crate::json;
use crate::providers::env_auth;
use crate::providers::env_auth::EnvKeys;
use crate::providers::errors::Failure;
use crate::providers::mock;
use crate::providers::mock::{Response, Step};
use crate::providers::reasoning;
use crate::providers::types;
use crate::providers::types::{ApiStreamChunk, Chunk};
use crate::text;
use vstd::prelude::*;

verus! {

/// The value of a chunk is what the chunk holds, member by member.
pub proof fn law_chunks_are_what_they_hold(v: Seq<ApiStreamChunk>, i: int)
    requires
        0 <= i < v.len(),
    ensures
        types::chunks(v).len() == v.len(),
        match v[i] {
            ApiStreamChunk::Text(c) => types::chunks(v)[i] == (Chunk::Text {
                text: c.text@,
                id: text::opt(c.id),
                signature: text::opt(c.signature),
            }),
            ApiStreamChunk::Reasoning(c) => types::chunks(v)[i] == (Chunk::Reasoning {
                reasoning: c.reasoning@,
                details: match c.details {
                    Some(d) => Some(d@),
                    None => None,
                },
                signature: text::opt(c.signature),
                redacted_data: text::opt(c.redacted_data),
                id: text::opt(c.id),
            }),
            ApiStreamChunk::ToolCallStarted { call_id, name } => types::chunks(v)[i]
                == (Chunk::Started { call_id: call_id@, name: name@ }),
            ApiStreamChunk::ToolCalls(c) => types::chunks(v)[i] == (Chunk::ToolCall {
                call_id: text::opt(c.tool_call.call_id),
                function_id: text::opt(c.tool_call.function.id),
                name: text::opt(c.tool_call.function.name),
                arguments: text::opt(c.tool_call.function.arguments),
                call_signature: text::opt(c.tool_call.signature),
                id: text::opt(c.id),
                signature: text::opt(c.signature),
            }),
            ApiStreamChunk::Usage(u) => types::chunks(v)[i] is Usage && ({
                let x = types::chunks(v)[i]->Usage_0;
                &&& x.input_tokens == u.input_tokens
                &&& x.output_tokens == u.output_tokens
                &&& x.cache_write_tokens == u.cache_write_tokens
                &&& x.cache_read_tokens == u.cache_read_tokens
                &&& x.reasoning_tokens == u.reasoning_tokens
                &&& x.thoughts_token_count == u.thoughts_token_count
                &&& x.total_cost == u.total_cost
                &&& x.stop_reason == text::opt(u.stop_reason)
                &&& x.id == text::opt(u.id)
            }),
            ApiStreamChunk::Error(e) => types::chunks(v)[i] == Chunk::Error(e@),
        },
{
}

// ---------------------------------------------------------------------------
// Scripts
// ---------------------------------------------------------------------------

/// The answers of a script are played in order, each once, and each as it was written: a
/// text as a text, a call with its identifier, its name and its arguments, a stream step by
/// step, an error as an error.
pub proof fn law_scripts_play_what_is_written(s: Seq<Response>, n: nat, repeat: bool)
    requires
        n < s.len(),
    ensures
        mock::answer(s, n, repeat) == Some(s[n as int]),
        ({
            let p = mock::played(Some(s[n as int]));
            match s[n as int] {
                Response::Text(t) => p is Ok && p->Ok_0.len() == 2 && p->Ok_0[0] == Step::Chunk(
                    Chunk::Text { text: t, id: None, signature: None },
                ) && p->Ok_0[1] is Chunk && p->Ok_0[1]->Chunk_0 is Usage,
                Response::ToolCalls(v) => v.len() > 0 ==> p is Ok && p->Ok_0.len() == 2
                    && p->Ok_0[0] == Step::Chunk(
                    Chunk::ToolCall {
                        call_id: Some(v[0].id),
                        function_id: None,
                        name: Some(v[0].name),
                        arguments: Some(json::printed(v[0].arguments)),
                        call_signature: None,
                        id: None,
                        signature: None,
                    },
                ) && p->Ok_0[1] is Chunk && p->Ok_0[1]->Chunk_0 is Usage,
                Response::Stream(v) => p == Ok::<Seq<Step>, Failure>(v),
                Response::Error(m) => p == Err::<Seq<Step>, Failure>(Failure::Api(m)),
            }
        }),
{
}

// ---------------------------------------------------------------------------
// Keys
// ---------------------------------------------------------------------------

/// A single key chooses its own provider.
pub proof fn law_a_key_chooses_its_provider(base: bool)
    ensures
        ({
            let none = EnvKeys {
                anthropic_api_key: false,
                openrouter_api_key: false,
                openai_api_base: base,
                openai_api_key: false,
                gemini_api_key: false,
                minimax_api_key: false,
                minimax_cn_api_key: false,
                deepseek_api_key: false,
            };
            &&& env_auth::preferred(none) is None
            &&& env_auth::preferred(EnvKeys { anthropic_api_key: true, ..none }) == Some(
                "anthropic"@,
            )
            &&& env_auth::preferred(EnvKeys { openrouter_api_key: true, ..none }) == Some(
                "openrouter"@,
            )
            &&& env_auth::preferred(
                EnvKeys { openai_api_key: true, openai_api_base: true, ..none },
            ) == Some("openai"@)
            &&& env_auth::preferred(
                EnvKeys { openai_api_key: true, openai_api_base: false, ..none },
            ) == Some("openai-native"@)
            &&& env_auth::preferred(EnvKeys { gemini_api_key: true, ..none }) == Some("gemini"@)
            &&& env_auth::preferred(EnvKeys { minimax_api_key: true, ..none }) == Some(
                "minimax"@,
            )
            &&& env_auth::preferred(EnvKeys { minimax_cn_api_key: true, ..none }) == Some(
                "minimax"@,
            )
            &&& env_auth::preferred(EnvKeys { deepseek_api_key: true, ..none }) == Some(
                "deepseek"@,
            )
        }),
{
}

/// A key of lower preference makes no difference where one of higher preference is there.
pub proof fn law_preferred_keys_come_first(e: EnvKeys)
    ensures
        e.anthropic_api_key ==> env_auth::preferred(e) == Some("anthropic"@),
        !e.anthropic_api_key && e.openrouter_api_key ==> env_auth::preferred(e) == Some(
            "openrouter"@,
        ),
        !e.anthropic_api_key && !e.openrouter_api_key && e.openai_api_key && e.openai_api_base
            ==> env_auth::preferred(e) == Some("openai"@),
        !e.anthropic_api_key && !e.openrouter_api_key && e.openai_api_key && !e.openai_api_base
            ==> env_auth::preferred(e) == Some("openai-native"@),
        !e.anthropic_api_key && !e.openrouter_api_key && !e.openai_api_key && e.gemini_api_key
            ==> env_auth::preferred(e) == Some("gemini"@),
        !e.anthropic_api_key && !e.openrouter_api_key && !e.openai_api_key && !e.gemini_api_key
            && (e.minimax_api_key || e.minimax_cn_api_key) ==> env_auth::preferred(e) == Some(
            "minimax"@,
        ),
{
}

// ---------------------------------------------------------------------------
// Markers and repetitions
// ---------------------------------------------------------------------------

/// The end of a text that may still become a marker is as long as can be: it begins a marker
/// without being one, and no longer end does.
pub proof fn law_cut_markers_are_held_back(s: Seq<char>, markers: Seq<Seq<char>>, m: int, k: int)
    requires
        0 <= m < markers.len(),
        0 < k <= s.len(),
    ensures
        ({
            let n = reasoning::partial_suffix(s, markers);
            &&& 0 <= n <= s.len()
            &&& n > 0 ==> exists|j: int|
                0 <= j < markers.len() && (#[trigger] markers[j]).len() > n && markers[j].take(n)
                    == s.skip(s.len() - n)
            &&& k < markers[m].len() && markers[m].take(k) == s.skip(s.len() - k) ==> k <= n
        }),
{
    let n = reasoning::partial_suffix(s, markers);
    reasoning::lemma_partial_up_to(s, markers, s.len() as int);
    if n > 0 {
        assert(reasoning::is_partial(s, markers, n));
        let j = choose|j: int|
            0 <= j < markers.len() && (#[trigger] markers[j]).len() > n && text::begins(
                markers[j],
                s.skip(s.len() - n),
            );
        assert(markers[j].subrange(0, n) =~= s.skip(s.len() - n));
        assert(markers[j].take(n) =~= s.skip(s.len() - n));
    }
    if k < markers[m].len() && markers[m].take(k) == s.skip(s.len() - k) {
        assert(markers[m].subrange(0, k) =~= markers[m].take(k));
        assert(text::begins(markers[m], s.skip(s.len() - k)));
        assert(reasoning::is_partial(s, markers, k));
    }
}

/// What is new is all that is shown: a delta that only repeats shows nothing, one that has
/// nothing in common is shown whole, and one that repeats the end and goes on shows what
/// goes on.
pub proof fn law_repetitions_are_left_out(emitted: Seq<char>, more: Seq<char>)
    ensures
        reasoning::fresh(emitted, emitted).len() == 0,
        reasoning::fresh(Seq::empty(), more) == more,
        reasoning::fresh(emitted, emitted + more) == more,
{
    reasoning::law_overlap_is_longest(emitted, emitted);
    reasoning::law_overlap_is_longest(Seq::empty(), more);
    reasoning::law_overlap_is_longest(emitted, emitted + more);
    let n = emitted.len() as int;
    assert(emitted.skip(0) =~= emitted);
    assert(emitted.take(n) =~= emitted);
    assert((emitted + more).take(n) =~= emitted);
    assert(emitted.skip(emitted.len() - n) == emitted.take(n));
    assert(reasoning::overlap(emitted, emitted) == n);
    assert(reasoning::overlap(emitted, emitted + more) == n);
    assert((emitted + more).skip(n) =~= more);
    assert(more.skip(0) =~= more);
}

} // verus!
