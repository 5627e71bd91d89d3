//! Chat completions that come as one body rather than as a stream.

use crate::fields;
use crate::json;
use crate::json::{Json, Tree};
use crate::providers::errors::{Failure, ProviderError};
use crate::providers::openai_stream;
use crate::providers::openai_stream::{OpenAiStreamDeltaState, OpenAiUsage, Progress};
use crate::providers::sse;
use crate::providers::sse::{LineState, SseLineBuffer};
use crate::providers::stream_events;
use crate::providers::stream_events::{FunctionDelta, FunctionPart};
use crate::providers::tool_args;
use crate::providers::types;
use crate::providers::types::{ApiStreamChunk, Chunk, CompatModel, OpenAiCompatibleModelInfo};
use crate::text;
use vstd::prelude::*;

verus! {

/// A tool call of a completion.
#[derive(Debug)]
pub struct CompletionCall {
    pub id: Option<String>,
    pub function: Option<FunctionDelta>,
}

/// The message of a completion.
#[derive(Debug)]
pub struct CompletionMessage {
    pub content: Option<String>,
    pub reasoning_content: Option<String>,
    pub refusal: Option<String>,
    pub tool_calls: Vec<CompletionCall>,
}

/// One choice of a completion.
#[derive(Debug)]
pub struct CompletionChoice {
    pub message: CompletionMessage,
    pub finish_reason: Option<String>,
}

/// A completion.
#[derive(Debug)]
pub struct OpenAiCompletionResponse {
    pub id: Option<String>,
    /// The first choice, where the completion has one.
    pub choice: Option<CompletionChoice>,
    pub usage: Option<OpenAiUsage>,
}

/// The mathematical value of a tool call of a completion.
pub struct WholeCall {
    pub id: Option<Seq<char>>,
    pub function: Option<FunctionPart>,
}

/// The mathematical value of a choice of a completion.
pub struct Answer {
    pub content: Option<Seq<char>>,
    pub reasoning: Option<Seq<char>>,
    pub refusal: Option<Seq<char>>,
    pub calls: Seq<WholeCall>,
    pub finish: Option<Seq<char>>,
}

/// The mathematical value of a completion.
pub struct Completion {
    pub id: Option<Seq<char>>,
    pub answer: Option<Answer>,
    pub usage: Option<OpenAiUsage>,
}

impl View for CompletionCall {
    type V = WholeCall;

    open spec fn view(&self) -> WholeCall {
        WholeCall {
            id: text::opt(self.id),
            function: match self.function {
                Some(f) => Some(f@),
                None => None,
            },
        }
    }
}

/// The values of a list of tool calls.
pub open spec fn whole_calls(v: Seq<CompletionCall>) -> Seq<WholeCall> {
    v.map_values(|c: CompletionCall| c@)
}

impl View for CompletionChoice {
    type V = Answer;

    open spec fn view(&self) -> Answer {
        Answer {
            content: text::opt(self.message.content),
            reasoning: text::opt(self.message.reasoning_content),
            refusal: text::opt(self.message.refusal),
            calls: whole_calls(self.message.tool_calls@),
            finish: text::opt(self.finish_reason),
        }
    }
}

impl View for OpenAiCompletionResponse {
    type V = Completion;

    open spec fn view(&self) -> Completion {
        Completion {
            id: text::opt(self.id),
            answer: match self.choice {
                Some(c) => Some(c@),
                None => None,
            },
            usage: self.usage,
        }
    }
}

// ---------------------------------------------------------------------------
// Reading
// ---------------------------------------------------------------------------

/// The members of a tool call.
pub open spec fn call_members() -> Seq<Seq<char>> {
    seq!["id"@, "function"@]
}

/// The tool call that a JSON object describes.
pub open spec fn call_of(t: Tree) -> Option<WholeCall> {
    let t = fields::record(t, call_members(), 2);
    if !(t is Obj) {
        None
    } else {
        match (fields::maybe_text(t, "id"@), fields::maybe_member(t, "function"@)) {
            (Some(id), None) => Some(WholeCall { id, function: None }),
            (Some(id), Some(f)) => match stream_events::function_part(f) {
                Some(p) => Some(WholeCall { id, function: Some(p) }),
                None => None,
            },
            _ => None,
        }
    }
}

/// The tool calls that a list of JSON objects describes, if each describes one.
pub open spec fn all_calls(ts: Seq<Tree>) -> Option<Seq<WholeCall>>
    decreases ts.len(),
{
    if ts.len() == 0 {
        Some(Seq::empty())
    } else {
        match (all_calls(ts.drop_last()), call_of(ts.last())) {
            (Some(v), Some(c)) => Some(v.push(c)),
            _ => None,
        }
    }
}

/// The members of a message.
pub open spec fn message_members() -> Seq<Seq<char>> {
    seq!["content"@, "reasoning_content"@, "refusal"@, "tool_calls"@]
}

/// The members of a choice.
pub open spec fn answer_members() -> Seq<Seq<char>> {
    seq!["message"@, "finish_reason"@]
}

/// The choice that a JSON object describes. A message that is missing or null is empty.
pub open spec fn answer_of(t: Tree) -> Option<Answer> {
    let t = fields::record(t, answer_members(), 2);
    if !(t is Obj) {
        None
    } else {
        match (fields::maybe_text(t, "finish_reason"@), fields::maybe_member(t, "message"@)) {
            (Some(finish), None) => Some(
                Answer {
                    content: None,
                    reasoning: None,
                    refusal: None,
                    calls: Seq::empty(),
                    finish,
                },
            ),
            (Some(finish), Some(n)) => {
                let m = fields::record(n, message_members(), 4);
                if !(m is Obj) {
                    None
                } else {
                    match (
                        fields::maybe_text(m, "content"@),
                        fields::maybe_text(m, "reasoning_content"@),
                        fields::maybe_text(m, "refusal"@),
                        openai_stream::list_or_null(m, "tool_calls"@),
                    ) {
                        (Some(content), Some(reasoning), Some(refusal), Some(list)) => match all_calls(
                            list,
                        ) {
                            Some(calls) => Some(
                                Answer { content, reasoning, refusal, calls, finish },
                            ),
                            None => None,
                        },
                        _ => None,
                    }
                }
            },
            _ => None,
        }
    }
}

/// Every item of a list describes a choice.
pub open spec fn all_answers(ts: Seq<Tree>) -> bool {
    forall|i: int| 0 <= i < ts.len() ==> answer_of(#[trigger] ts[i]) is Some
}

/// The members of a completion.
pub open spec fn completion_members() -> Seq<Seq<char>> {
    seq!["id"@, "choices"@, "usage"@]
}

/// The completion that a JSON object describes.
pub open spec fn completion_of(t: Tree) -> Option<Completion> {
    let t = fields::record(t, completion_members(), 3);
    if !(t is Obj) {
        None
    } else {
        match (fields::maybe_text(t, "id"@), fields::list_or_empty(t, "choices"@)) {
            (Some(id), Some(choices)) => if !all_answers(choices) {
                None
            } else {
                let answer = if choices.len() > 0 {
                    answer_of(choices[0])
                } else {
                    None
                };
                match fields::maybe_member(t, "usage"@) {
                    None => Some(Completion { id, answer, usage: None }),
                    Some(u) => match openai_stream::usage_of(u) {
                        Some(usage) => Some(Completion { id, answer, usage: Some(usage) }),
                        None => None,
                    },
                }
            },
            _ => None,
        }
    }
}

proof fn lemma_all_calls_none(ts: Seq<Tree>, n: int)
    requires
        0 <= n <= ts.len(),
        all_calls(ts.take(n)) is None,
    ensures
        all_calls(ts) is None,
    decreases ts.len() - n,
{
    if n < ts.len() {
        assert(ts.take(n + 1).drop_last() =~= ts.take(n));
        lemma_all_calls_none(ts, n + 1);
    } else {
        assert(ts.take(n) =~= ts);
    }
}

fn read_call(j: &Json) -> (r: Option<CompletionCall>)
    ensures
        r matches Some(c) ==> call_of(j@) == Some(c@),
        r is None ==> call_of(j@) is None,
{
    let names: [&str; 2] = ["id", "function"];
    assert(fields::names_of(names@) =~= call_members());
    let listed = fields::read_listed(j, &names, 2);
    let o = match &listed {
        Some(r) => r,
        None => j,
    };
    if o.as_object().is_none() {
        return None;
    }
    let id = match fields::read_maybe_text(o, "id") {
        Some(i) => i,
        None => return None,
    };
    match fields::read_member(o, "function") {
        None => Some(CompletionCall { id, function: None }),
        Some(f) => match stream_events::read_function(f) {
            Some(p) => Some(CompletionCall { id, function: Some(p) }),
            None => None,
        },
    }
}

fn read_calls(v: &Vec<Json>) -> (r: Option<Vec<CompletionCall>>)
    ensures
        r matches Some(c) ==> all_calls(json::trees(v@)) == Some(whole_calls(c@)),
        r is None ==> all_calls(json::trees(v@)) is None,
{
    let ghost ts = json::trees(v@);
    let mut out: Vec<CompletionCall> = Vec::new();
    let mut i: usize = 0;
    assert(whole_calls(out@) =~= Seq::empty());
    while i < v.len()
        invariant
            i <= v@.len(),
            ts == json::trees(v@),
            all_calls(ts.take(i as int)) == Some(whole_calls(out@)),
        decreases v@.len() - i,
    {
        proof {
            assert(ts.take(i + 1).drop_last() =~= ts.take(i as int));
            assert(ts.take(i + 1).last() == v@[i as int]@);
        }
        match read_call(&v[i]) {
            None => {
                proof {
                    lemma_all_calls_none(ts, i + 1);
                }
                return None;
            },
            Some(c) => {
                let ghost before = out@;
                out.push(c);
                assert(whole_calls(out@) =~= whole_calls(before).push(c@));
            },
        }
        i = i + 1;
    }
    assert(ts.take(i as int) =~= ts);
    Some(out)
}

fn read_answer(j: &Json) -> (r: Option<CompletionChoice>)
    ensures
        r matches Some(c) ==> answer_of(j@) == Some(c@),
        r is None ==> answer_of(j@) is None,
{
    let names: [&str; 2] = ["message", "finish_reason"];
    assert(fields::names_of(names@) =~= answer_members());
    let listed = fields::read_listed(j, &names, 2);
    let o = match &listed {
        Some(r) => r,
        None => j,
    };
    if o.as_object().is_none() {
        return None;
    }
    let finish_reason = match fields::read_maybe_text(o, "finish_reason") {
        Some(f) => f,
        None => return None,
    };
    let n = match fields::read_member(o, "message") {
        None => {
            let none: Vec<CompletionCall> = Vec::new();
            assert(whole_calls(none@) =~= Seq::empty());
            return Some(
                CompletionChoice {
                    message: CompletionMessage {
                        content: None,
                        reasoning_content: None,
                        refusal: None,
                        tool_calls: none,
                    },
                    finish_reason,
                },
            );
        },
        Some(m) => m,
    };
    let message_names: [&str; 4] = ["content", "reasoning_content", "refusal", "tool_calls"];
    assert(fields::names_of(message_names@) =~= message_members());
    let message = fields::read_listed(n, &message_names, 4);
    let m = match &message {
        Some(r) => r,
        None => n,
    };
    if m.as_object().is_none() {
        return None;
    }
    let content = match fields::read_maybe_text(m, "content") {
        Some(c) => c,
        None => return None,
    };
    let reasoning_content = match fields::read_maybe_text(m, "reasoning_content") {
        Some(c) => c,
        None => return None,
    };
    let refusal = match fields::read_maybe_text(m, "refusal") {
        Some(c) => c,
        None => return None,
    };
    let none: Vec<Json> = Vec::new();
    assert(json::trees(none@) =~= Seq::empty());
    let list = match m.get("tool_calls") {
        None => &none,
        Some(Json::Null) => &none,
        Some(v) => match v.as_array() {
            Some(a) => a,
            None => return None,
        },
    };
    let tool_calls = match read_calls(list) {
        Some(c) => c,
        None => return None,
    };
    Some(
        CompletionChoice {
            message: CompletionMessage { content, reasoning_content, refusal, tool_calls },
            finish_reason,
        },
    )
}

/// Reads a completion.
pub fn read_completion(j: &Json) -> (r: Option<OpenAiCompletionResponse>)
    ensures
        r matches Some(c) ==> completion_of(j@) == Some(c@),
        r is None ==> completion_of(j@) is None,
{
    let names: [&str; 3] = ["id", "choices", "usage"];
    assert(fields::names_of(names@) =~= completion_members());
    let listed = fields::read_listed(j, &names, 3);
    let o = match &listed {
        Some(r) => r,
        None => j,
    };
    if o.as_object().is_none() {
        return None;
    }
    let id = match fields::read_maybe_text(o, "id") {
        Some(t) => t,
        None => return None,
    };
    let none: Vec<Json> = Vec::new();
    assert(json::trees(none@) =~= Seq::empty());
    let choices = match fields::read_list_or_empty(o, "choices") {
        Some(Some(v)) => v,
        Some(None) => &none,
        None => return None,
    };
    let ghost ts = json::trees(choices@);
    let mut choice: Option<CompletionChoice> = None;
    let mut i: usize = choices.len();
    while i > 0
        invariant
            i <= choices@.len(),
            ts == json::trees(choices@),
            o@ == fields::record(j@, completion_members(), 3),
            fields::list_or_empty(o@, "choices"@) == Some(ts),
            forall|k: int| i <= k < ts.len() ==> answer_of(#[trigger] ts[k]) is Some,
            i < ts.len() ==> choice is Some && answer_of(ts[i as int]) == Some((choice->0)@),
            i == ts.len() ==> choice is None,
        decreases i,
    {
        i = i - 1;
        assert(ts[i as int] == choices@[i as int]@);
        match read_answer(&choices[i]) {
            Some(c) => {
                choice = Some(c);
            },
            None => {
                return None;
            },
        }
    }
    match fields::read_member(o, "usage") {
        None => Some(OpenAiCompletionResponse { id, choice, usage: None }),
        Some(u) => match openai_stream::read_usage(u) {
            Some(usage) => Some(OpenAiCompletionResponse { id, choice, usage: Some(usage) }),
            None => None,
        },
    }
}

// ---------------------------------------------------------------------------
// Decoding
// ---------------------------------------------------------------------------

/// A text that is there and not empty.
pub open spec fn filled(t: Option<Seq<char>>) -> Option<Seq<char>> {
    match t {
        Some(s) => if s.len() > 0 {
            Some(s)
        } else {
            None
        },
        None => None,
    }
}

/// The chunks of a tool call of a completion: none where it lacks an id or a safe name.
pub open spec fn call_chunks(c: WholeCall, id: Option<Seq<char>>) -> Seq<Chunk> {
    match (filled(c.id), c.function) {
        (Some(call_id), Some(f)) => match filled(f.name) {
            Some(raw) => {
                let name = openai_stream::plain_name(raw);
                if openai_stream::is_safe_name(name) {
                    let arguments = match f.arguments {
                        Some(a) => a,
                        None => Seq::empty(),
                    };
                    seq![
                        Chunk::Started { call_id, name },
                        types::call_chunk(call_id, name, tool_args::validated(arguments), id),
                    ]
                } else {
                    Seq::empty()
                }
            },
            None => Seq::empty(),
        },
        _ => Seq::empty(),
    }
}

/// The chunks of the tool calls of a completion.
pub open spec fn calls_chunks(v: Seq<WholeCall>, id: Option<Seq<char>>) -> Seq<Chunk>
    decreases v.len(),
{
    if v.len() == 0 {
        Seq::empty()
    } else {
        calls_chunks(v.drop_last(), id) + call_chunks(v.last(), id)
    }
}

/// The chunks of a completion: reasoning, text, refusal, tool calls unless a filter
/// ended the answer, and token counts.
pub open spec fn completion_chunks(c: Completion, m: Option<CompatModel>) -> Seq<Chunk> {
    match c.answer {
        None => seq![Chunk::Usage(openai_stream::no_usage(c.id, None))],
        Some(a) => {
            let reasoning = match filled(a.reasoning) {
                Some(t) => seq![types::reasoning_chunk(t, c.id)],
                None => Seq::empty(),
            };
            let content = match filled(a.content) {
                Some(t) => seq![types::text_chunk(t, c.id)],
                None => Seq::empty(),
            };
            let refusal = match filled(a.refusal) {
                Some(t) => seq![Chunk::Error("OpenAI model refused: "@ + t)],
                None => Seq::empty(),
            };
            let calls = if a.finish == Some("content_filter"@) {
                Seq::empty()
            } else {
                calls_chunks(a.calls, c.id)
            };
            let usage = match c.usage {
                Some(u) => openai_stream::usage_value(u, c.id, a.finish, m),
                None => openai_stream::no_usage(c.id, a.finish),
            };
            (reasoning + content + refusal + calls).push(Chunk::Usage(usage))
        },
    }
}

fn emit_call(c: &CompletionCall, id: &Option<String>, out: &mut Vec<ApiStreamChunk>)
    ensures
        types::chunks(final(out)@) == types::chunks(old(out)@) + call_chunks(c@, text::opt(*id)),
{
    let ghost start = types::chunks(out@);
    if let (Some(call_id), Some(f)) = (&c.id, &c.function) {
        if let Some(raw) = &f.name {
            if !call_id.as_str().is_empty() && !raw.as_str().is_empty() {
                let name = openai_stream::make_plain_name(raw.as_str());
                if openai_stream::is_safe_tool_name(name.as_str()) {
                    types::emit(
                        out,
                        ApiStreamChunk::ToolCallStarted {
                            call_id: call_id.clone(),
                            name: name.clone(),
                        },
                    );
                    let given = match &f.arguments {
                        Some(a) => a.clone(),
                        None => String::new(),
                    };
                    let arguments = tool_args::validate_tool_call_args(
                        given.as_str(),
                        "OpenAI",
                        "non-stream response",
                    );
                    types::emit_call(
                        out,
                        call_id.as_str(),
                        name.as_str(),
                        arguments.as_str(),
                        id,
                    );
                    assert(types::chunks(out@) =~= start + call_chunks(c@, text::opt(*id)));
                    return;
                }
            }
        }
    }
    assert(types::chunks(out@) =~= start + call_chunks(c@, text::opt(*id)));
}

/// The chunks of a completion.
pub fn decode_openai_completion(
    completion: &OpenAiCompletionResponse,
    model_info: &Option<OpenAiCompatibleModelInfo>,
) -> (r: Vec<ApiStreamChunk>)
    ensures
        types::chunks(r@) == completion_chunks(completion@, openai_stream::opt_model(*model_info)),
{
    let mut out: Vec<ApiStreamChunk> = Vec::new();
    assert(types::chunks(out@) =~= Seq::empty());
    let id = text::copy_opt(&completion.id);
    let choice = match &completion.choice {
        None => {
            let chunk = openai_stream::make_no_usage(id, None);
            types::emit(&mut out, ApiStreamChunk::Usage(chunk));
            assert(types::chunks(out@) =~= completion_chunks(
                completion@,
                openai_stream::opt_model(*model_info),
            ));
            return out;
        },
        Some(c) => c,
    };
    let ghost a = choice@;
    if let Some(t) = &choice.message.reasoning_content {
        if !t.as_str().is_empty() {
            types::emit_reasoning(&mut out, t.as_str(), &id);
        }
    }
    if let Some(t) = &choice.message.content {
        if !t.as_str().is_empty() {
            types::emit_text(&mut out, t.as_str(), &id);
        }
    }
    if let Some(t) = &choice.message.refusal {
        if !t.as_str().is_empty() {
            let mut m = "OpenAI model refused: ".to_owned();
            text::push_text(&mut m, t.as_str());
            types::emit_error(&mut out, m.as_str());
        }
    }
    let filtered = match &choice.finish_reason {
        Some(f) => text::same(f.as_str(), "content_filter"),
        None => false,
    };
    let ghost head = types::chunks(out@);
    if !filtered {
        let ghost cs = whole_calls(choice.message.tool_calls@);
        let mut i: usize = 0;
        assert(head + calls_chunks(cs.take(0), text::opt(id)) =~= head);
        while i < choice.message.tool_calls.len()
            invariant
                i <= choice.message.tool_calls@.len(),
                cs == whole_calls(choice.message.tool_calls@),
                types::chunks(out@) =~= head + calls_chunks(cs.take(i as int), text::opt(id)),
            decreases choice.message.tool_calls@.len() - i,
        {
            proof {
                assert(cs.take(i + 1).drop_last() =~= cs.take(i as int));
                assert(cs.take(i + 1).last() == choice.message.tool_calls@[i as int]@);
            }
            emit_call(&choice.message.tool_calls[i], &id, &mut out);
            i = i + 1;
        }
        assert(cs.take(i as int) =~= cs);
    }
    let chunk = match &completion.usage {
        Some(u) => openai_stream::openai_usage_chunk(
            u,
            text::copy_opt(&completion.id),
            text::copy_opt(&choice.finish_reason),
            model_info,
        ),
        None => openai_stream::make_no_usage(
            text::copy_opt(&completion.id),
            text::copy_opt(&choice.finish_reason),
        ),
    };
    types::emit(&mut out, ApiStreamChunk::Usage(chunk));
    assert(types::chunks(out@) =~= completion_chunks(
        completion@,
        openai_stream::opt_model(*model_info),
    ));
    out
}

// ---------------------------------------------------------------------------
// Bodies
// ---------------------------------------------------------------------------

/// Some line of a text begins with `data:` after white space.
pub open spec fn looks_like_sse(s: Seq<char>) -> bool {
    exists|i: int|
        0 <= i < text::text_lines(s).len() && text::begins(
            text::trimmed_start(#[trigger] text::text_lines(s)[i]),
            "data:"@,
        )
}

/// Whether a body is a stream of events although it was not announced as one.
pub fn body_looks_like_sse(body: &[u8]) -> (r: bool)
    ensures
        r == looks_like_sse(sse::lossy(body@)),
{
    let t = sse::text_of_bytes(body);
    let lines = text::lines(t.as_str());
    let ghost ls = text::text_lines(t@);
    let mut i: usize = 0;
    while i < lines.len()
        invariant
            i <= lines@.len(),
            ls == text::texts(lines@),
            ls == text::text_lines(sse::lossy(body@)),
            forall|j: int|
                0 <= j < i ==> !text::begins(
                    text::trimmed_start(#[trigger] ls[j]),
                    "data:"@,
                ),
        decreases lines@.len() - i,
    {
        assert(ls[i as int] == lines@[i as int]@);
        let l = text::trim_start(lines[i].as_str());
        if text::starts_with(l.as_str(), "data:") {
            return true;
        }
        i = i + 1;
    }
    false
}

/// The most chunks that a body is decoded into.
pub const MAX_BODY_CHUNKS: usize = 10000;

/// The chunks of a body that is a stream of events.
pub open spec fn sse_body_chunks(body: Seq<u8>, m: Option<CompatModel>) -> Seq<Chunk> {
    let buffer = LineState {
        pending: Seq::empty(),
        max: sse::DEFAULT_MAX_LINE_LENGTH as nat,
        exceeded: false,
        skipping: false,
    };
    let start = Progress { state: openai_stream::fresh_state(), chunks: Seq::empty() };
    let all = start.bytes(buffer, body, m, MAX_BODY_CHUNKS).finish(
        sse::buffer_after(buffer, body),
        m,
        MAX_BODY_CHUNKS,
    ).chunks;
    if all.len() > MAX_BODY_CHUNKS {
        all.take(MAX_BODY_CHUNKS as int)
    } else {
        all
    }
}

/// Decodes a body that is a stream of events.
pub fn decode_openai_sse_body(
    body: &[u8],
    model_info: &Option<OpenAiCompatibleModelInfo>,
) -> (r: Vec<ApiStreamChunk>)
    ensures
        types::chunks(r@) == sse_body_chunks(body@, openai_stream::opt_model(*model_info)),
{
    let mut out: Vec<ApiStreamChunk> = Vec::new();
    assert(types::chunks(out@) =~= Seq::empty());
    let mut buffer = SseLineBuffer::default();
    let mut s = OpenAiStreamDeltaState::default();
    openai_stream::parse_openai_sse_to_chunks(
        body,
        &mut buffer,
        &mut s,
        model_info,
        MAX_BODY_CHUNKS,
        &mut out,
    );
    openai_stream::finish_openai_sse_to_chunks(
        &mut buffer,
        &mut s,
        model_info,
        MAX_BODY_CHUNKS,
        &mut out,
    );
    let ghost all = types::chunks(out@);
    if out.len() > MAX_BODY_CHUNKS {
        out.truncate(MAX_BODY_CHUNKS);
        assert(types::chunks(out@) =~= all.take(MAX_BODY_CHUNKS as int));
    }
    out
}

/// What a body that was not streamed comes to, given what it reads as: the chunks of
/// a completion or of a stream of events, or an error with the reason why it is no
/// completion.
pub open spec fn body_outcome(
    body: Seq<u8>,
    read: Option<Tree>,
    reason: Seq<char>,
    m: Option<CompatModel>,
) -> Result<Seq<Chunk>, Failure> {
    let completion = match read {
        Some(t) => completion_of(t),
        None => None,
    };
    match completion {
        Some(c) => Ok(completion_chunks(c, m)),
        None => if looks_like_sse(sse::lossy(body)) {
            Ok(sse_body_chunks(body, m))
        } else {
            Err(
                Failure::Invalid(
                    "OpenAI non-stream response was not valid chat.completion JSON: "@ + reason,
                ),
            )
        },
    }
}

/// The value of an outcome.
pub open spec fn outcome_value(
    r: Result<Vec<ApiStreamChunk>, ProviderError>,
) -> Result<Seq<Chunk>, Failure> {
    match r {
        Ok(v) => Ok(types::chunks(v@)),
        Err(e) => Err(e@),
    }
}

/// Decodes a body that was not streamed, given what it reads as and the reason why it
/// would be no completion.
pub fn decode_read_body(
    body: &[u8],
    read: &Option<Json>,
    reason: &str,
    model_info: &Option<OpenAiCompatibleModelInfo>,
) -> (r: Result<Vec<ApiStreamChunk>, ProviderError>)
    ensures
        outcome_value(r) == body_outcome(
            body@,
            types::opt_tree(*read),
            reason@,
            openai_stream::opt_model(*model_info),
        ),
{
    if let Some(j) = read {
        if let Some(c) = read_completion(j) {
            return Ok(decode_openai_completion(&c, model_info));
        }
    }
    if body_looks_like_sse(body) {
        Ok(decode_openai_sse_body(body, model_info))
    } else {
        let mut m = "OpenAI non-stream response was not valid chat.completion JSON: ".to_owned();
        text::push_text(&mut m, reason);
        Err(ProviderError::InvalidRequest(m))
    }
}

/// Decodes a body that was not streamed, given the reason why it would be no completion.
pub fn decode_openai_body(
    body: &[u8],
    reason: &str,
    model_info: &Option<OpenAiCompatibleModelInfo>,
) -> (r: Result<Vec<ApiStreamChunk>, ProviderError>)
    ensures
        outcome_value(r) == body_outcome(
            body@,
            json::parsed_bytes(body@),
            reason@,
            openai_stream::opt_model(*model_info),
        ),
{
    decode_read_body(body, &json::parse_bytes(body), reason, model_info)
}

} // verus!
