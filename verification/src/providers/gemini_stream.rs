//! Assembly of a Gemini response.

use crate::fields;
use crate::json;
use crate::json::{Json, Tree};
use crate::providers::openai_stream;
use crate::providers::sse;
use crate::providers::sse::{LineState, SseLineBuffer};
use crate::providers::stream_events;
use crate::providers::tool_args;
use crate::providers::types;
use crate::providers::types::{
    ApiStreamChunk, ApiStreamReasoningChunk, ApiStreamTextChunk, ApiStreamToolCall,
    ApiStreamToolCallFunction, ApiStreamToolCallsChunk, ApiStreamUsageChunk, Chunk, Model,
    ModelInfo, ModelTier, Usage,
};
use crate::text;
use vstd::prelude::*;

verus! {

// ---------------------------------------------------------------------------
// Events
// ---------------------------------------------------------------------------

/// A function call in a response.
#[derive(Debug)]
pub struct GeminiResponseFunctionCall {
    pub name: String,
    pub args: Option<Json>,
    pub id: Option<String>,
}

/// A part of a response.
#[derive(Debug)]
pub struct GeminiResponsePart {
    pub text: Option<String>,
    pub thought: Option<bool>,
    pub thought_signature: Option<String>,
    pub function_call: Option<GeminiResponseFunctionCall>,
}

/// A candidate answer.
#[derive(Debug)]
pub struct GeminiCandidate {
    pub parts: Vec<GeminiResponsePart>,
    pub finish_reason: Option<String>,
    pub grounding_metadata: Option<Json>,
}

/// The token counts of a response.
#[derive(Debug, Clone, Copy)]
pub struct GeminiUsageMetadata {
    pub prompt_token_count: Option<u32>,
    pub candidates_token_count: Option<u32>,
    pub thoughts_token_count: Option<u32>,
    pub cached_content_token_count: Option<u32>,
}

/// An event of a response.
#[derive(Debug)]
pub struct GeminiStreamChunk {
    pub candidates: Vec<GeminiCandidate>,
    pub usage_metadata: Option<GeminiUsageMetadata>,
    pub response_id: Option<String>,
}

/// The mathematical value of a function call.
pub struct FunctionCall {
    pub name: Seq<char>,
    pub args: Option<Tree>,
    pub id: Option<Seq<char>>,
}

/// The mathematical value of a part.
pub struct Part {
    pub text: Option<Seq<char>>,
    pub thought: Option<bool>,
    pub signature: Option<Seq<char>>,
    pub call: Option<FunctionCall>,
}

/// The mathematical value of a candidate.
pub struct Candidate {
    pub parts: Seq<Part>,
    pub finish: Option<Seq<char>>,
    pub grounding: Option<Tree>,
}

/// The mathematical value of an event.
pub struct Event {
    pub candidates: Seq<Candidate>,
    pub usage: Option<GeminiUsageMetadata>,
    pub id: Option<Seq<char>>,
}

impl View for GeminiResponseFunctionCall {
    type V = FunctionCall;

    open spec fn view(&self) -> FunctionCall {
        FunctionCall {
            name: self.name@,
            args: types::opt_tree(self.args),
            id: text::opt(self.id),
        }
    }
}

impl View for GeminiResponsePart {
    type V = Part;

    open spec fn view(&self) -> Part {
        Part {
            text: text::opt(self.text),
            thought: self.thought,
            signature: text::opt(self.thought_signature),
            call: match self.function_call {
                Some(c) => Some(c@),
                None => None,
            },
        }
    }
}

/// The values of a list of parts.
pub open spec fn parts(v: Seq<GeminiResponsePart>) -> Seq<Part> {
    v.map_values(|p: GeminiResponsePart| p@)
}

impl View for GeminiCandidate {
    type V = Candidate;

    open spec fn view(&self) -> Candidate {
        Candidate {
            parts: parts(self.parts@),
            finish: text::opt(self.finish_reason),
            grounding: types::opt_tree(self.grounding_metadata),
        }
    }
}

/// The values of a list of candidates.
pub open spec fn candidates(v: Seq<GeminiCandidate>) -> Seq<Candidate> {
    v.map_values(|c: GeminiCandidate| c@)
}

impl View for GeminiStreamChunk {
    type V = Event;

    open spec fn view(&self) -> Event {
        Event {
            candidates: candidates(self.candidates@),
            usage: self.usage_metadata,
            id: text::opt(self.response_id),
        }
    }
}

/// The members of a function call.
pub open spec fn call_members() -> Seq<Seq<char>> {
    seq!["name"@, "args"@, "id"@]
}

/// The function call that a JSON object describes.
pub open spec fn call_of(t: Tree) -> Option<FunctionCall> {
    let t = fields::record(t, call_members(), 1);
    match (fields::text_of(t, "name"@), fields::maybe_text(t, "id"@)) {
        (Some(name), Some(id)) => Some(
            FunctionCall { name, args: fields::maybe_member(t, "args"@), id },
        ),
        _ => None,
    }
}

/// The members of a part.
pub open spec fn part_members() -> Seq<Seq<char>> {
    seq!["text"@, "thought"@, "thoughtSignature"@, "functionCall"@]
}

/// The part that a JSON object describes.
pub open spec fn part_of(t: Tree) -> Option<Part> {
    let t = fields::record(t, part_members(), 0);
    if !(t is Obj) {
        None
    } else {
        match (
            fields::maybe_text(t, "text"@),
            fields::maybe_bool(t, "thought"@),
            fields::maybe_text(t, "thoughtSignature"@),
        ) {
            (Some(text), Some(thought), Some(signature)) => match fields::maybe_member(
                t,
                "functionCall"@,
            ) {
                None => Some(Part { text, thought, signature, call: None }),
                Some(c) => match call_of(c) {
                    Some(call) => Some(Part { text, thought, signature, call: Some(call) }),
                    None => None,
                },
            },
            _ => None,
        }
    }
}

/// The parts that a list describes; nothing where an item describes none.
pub open spec fn all_parts(ts: Seq<Tree>) -> Option<Seq<Part>>
    decreases ts.len(),
{
    if ts.len() == 0 {
        Some(Seq::empty())
    } else {
        match (all_parts(ts.drop_last()), part_of(ts.last())) {
            (Some(v), Some(p)) => Some(v.push(p)),
            _ => None,
        }
    }
}

/// The members of a content.
pub open spec fn content_members() -> Seq<Seq<char>> {
    seq!["parts"@]
}

/// The parts of a content, which may be missing.
pub open spec fn content_parts(c: Option<Tree>) -> Option<Seq<Part>> {
    match c {
        None => Some(Seq::empty()),
        Some(t) => {
            let r = fields::record(t, content_members(), 0);
            if !(r is Obj) {
                None
            } else {
                match fields::list_or_empty(r, "parts"@) {
                    Some(v) => all_parts(v),
                    None => None,
                }
            }
        },
    }
}

/// The members of a candidate.
pub open spec fn candidate_members() -> Seq<Seq<char>> {
    seq!["content"@, "finishReason"@, "groundingMetadata"@]
}

/// The candidate that a JSON object describes.
pub open spec fn candidate_of(t: Tree) -> Option<Candidate> {
    let t = fields::record(t, candidate_members(), 0);
    if !(t is Obj) {
        None
    } else {
        match (
            content_parts(fields::maybe_member(t, "content"@)),
            fields::maybe_text(t, "finishReason"@),
        ) {
            (Some(parts), Some(finish)) => Some(
                Candidate {
                    parts,
                    finish,
                    grounding: fields::maybe_member(t, "groundingMetadata"@),
                },
            ),
            _ => None,
        }
    }
}

/// The candidates that a list describes; nothing where an item describes none.
pub open spec fn all_candidates(ts: Seq<Tree>) -> Option<Seq<Candidate>>
    decreases ts.len(),
{
    if ts.len() == 0 {
        Some(Seq::empty())
    } else {
        match (all_candidates(ts.drop_last()), candidate_of(ts.last())) {
            (Some(v), Some(p)) => Some(v.push(p)),
            _ => None,
        }
    }
}

/// The members of token counts.
pub open spec fn usage_members() -> Seq<Seq<char>> {
    seq![
        "promptTokenCount"@,
        "candidatesTokenCount"@,
        "thoughtsTokenCount"@,
        "cachedContentTokenCount"@,
    ]
}

/// The token counts that a JSON object describes.
pub open spec fn usage_of(t: Tree) -> Option<GeminiUsageMetadata> {
    let t = fields::record(t, usage_members(), 0);
    let max = u32::MAX as int;
    if !(t is Obj) {
        None
    } else {
        match (
            fields::maybe_number(t, "promptTokenCount"@, max),
            fields::maybe_number(t, "candidatesTokenCount"@, max),
            fields::maybe_number(t, "thoughtsTokenCount"@, max),
            fields::maybe_number(t, "cachedContentTokenCount"@, max),
        ) {
            (Some(a), Some(b), Some(c), Some(d)) => Some(
                GeminiUsageMetadata {
                    prompt_token_count: openai_stream::opt_count(a),
                    candidates_token_count: openai_stream::opt_count(b),
                    thoughts_token_count: openai_stream::opt_count(c),
                    cached_content_token_count: openai_stream::opt_count(d),
                },
            ),
            _ => None,
        }
    }
}

/// The members of an event.
pub open spec fn event_members() -> Seq<Seq<char>> {
    seq!["candidates"@, "usageMetadata"@, "responseId"@]
}

/// The event that a JSON object describes.
pub open spec fn event_of(t: Tree) -> Option<Event> {
    let t = fields::record(t, event_members(), 0);
    if !(t is Obj) {
        None
    } else {
        let found = match fields::list_or_empty(t, "candidates"@) {
            Some(v) => all_candidates(v),
            None => None,
        };
        match (found, fields::maybe_text(t, "responseId"@)) {
            (Some(candidates), Some(id)) => match fields::maybe_member(t, "usageMetadata"@) {
                None => Some(Event { candidates, usage: None, id }),
                Some(u) => match usage_of(u) {
                    Some(usage) => Some(Event { candidates, usage: Some(usage), id }),
                    None => None,
                },
            },
            _ => None,
        }
    }
}

fn copy_member(j: &Json, key: &str) -> (r: Option<Json>)
    ensures
        types::opt_tree(r) == fields::maybe_member(j@, key@),
{
    match fields::read_member(j, key) {
        Some(v) => Some(v.copy()),
        None => None,
    }
}

fn read_call(j: &Json) -> (r: Option<GeminiResponseFunctionCall>)
    ensures
        r matches Some(c) ==> call_of(j@) == Some(c@),
        r is None ==> call_of(j@) is None,
{
    let names: [&str; 3] = ["name", "args", "id"];
    assert(fields::names_of(names@) =~= call_members());
    let listed = fields::read_listed(j, &names, 1);
    let o = match &listed {
        Some(r) => r,
        None => j,
    };
    let name = match fields::read_text(o, "name") {
        Some(t) => t,
        None => return None,
    };
    let id = match fields::read_maybe_text(o, "id") {
        Some(t) => t,
        None => return None,
    };
    Some(GeminiResponseFunctionCall { name, args: copy_member(o, "args"), id })
}

fn read_part(j: &Json) -> (r: Option<GeminiResponsePart>)
    ensures
        r matches Some(p) ==> part_of(j@) == Some(p@),
        r is None ==> part_of(j@) is None,
{
    let names: [&str; 4] = ["text", "thought", "thoughtSignature", "functionCall"];
    assert(fields::names_of(names@) =~= part_members());
    let listed = fields::read_listed(j, &names, 0);
    let o = match &listed {
        Some(r) => r,
        None => j,
    };
    if o.as_object().is_none() {
        return None;
    }
    let text = match fields::read_maybe_text(o, "text") {
        Some(t) => t,
        None => return None,
    };
    let thought = match fields::read_maybe_bool(o, "thought") {
        Some(b) => b,
        None => return None,
    };
    let thought_signature = match fields::read_maybe_text(o, "thoughtSignature") {
        Some(t) => t,
        None => return None,
    };
    match fields::read_member(o, "functionCall") {
        None => Some(GeminiResponsePart { text, thought, thought_signature, function_call: None }),
        Some(c) => match read_call(c) {
            Some(f) => Some(
                GeminiResponsePart { text, thought, thought_signature, function_call: Some(f) },
            ),
            None => None,
        },
    }
}

proof fn lemma_all_parts_none(ts: Seq<Tree>, n: int)
    requires
        0 <= n < ts.len(),
        part_of(ts[n]) is None,
    ensures
        all_parts(ts) is None,
    decreases ts.len(),
{
    if n < ts.len() - 1 {
        lemma_all_parts_none(ts.drop_last(), n);
    }
}

proof fn lemma_all_candidates_none(ts: Seq<Tree>, n: int)
    requires
        0 <= n < ts.len(),
        candidate_of(ts[n]) is None,
    ensures
        all_candidates(ts) is None,
    decreases ts.len(),
{
    if n < ts.len() - 1 {
        lemma_all_candidates_none(ts.drop_last(), n);
    }
}

fn read_parts(v: &Vec<Json>) -> (r: Option<Vec<GeminiResponsePart>>)
    ensures
        r matches Some(p) ==> all_parts(json::trees(v@)) == Some(parts(p@)),
        r is None ==> all_parts(json::trees(v@)) is None,
{
    let ghost ts = json::trees(v@);
    let mut out: Vec<GeminiResponsePart> = Vec::new();
    let mut i: usize = 0;
    assert(parts(out@) =~= Seq::empty());
    while i < v.len()
        invariant
            i <= v@.len(),
            ts == json::trees(v@),
            all_parts(ts.take(i as int)) == Some(parts(out@)),
        decreases v@.len() - i,
    {
        assert(ts.take(i + 1).drop_last() =~= ts.take(i as int));
        assert(ts.take(i + 1).last() == v@[i as int]@);
        match read_part(&v[i]) {
            Some(p) => {
                let ghost before = out@;
                out.push(p);
                assert(parts(out@) =~= parts(before).push(p@));
            },
            None => {
                proof {
                    lemma_all_parts_none(ts, i as int);
                }
                return None;
            },
        }
        i = i + 1;
    }
    assert(ts.take(i as int) =~= ts);
    Some(out)
}

fn read_content(c: Option<&Json>) -> (r: Option<Vec<GeminiResponsePart>>)
    ensures
        ({
            let t = match c {
                Some(j) => Some(j@),
                None => None,
            };
            &&& r matches Some(p) ==> content_parts(t) == Some(parts(p@))
            &&& r is None ==> content_parts(t) is None
        }),
{
    let j = match c {
        Some(j) => j,
        None => {
            let none: Vec<GeminiResponsePart> = Vec::new();
            assert(parts(none@) =~= Seq::empty());
            return Some(none);
        },
    };
    let names: [&str; 1] = ["parts"];
    assert(fields::names_of(names@) =~= content_members());
    let listed = fields::read_listed(j, &names, 0);
    let o = match &listed {
        Some(r) => r,
        None => j,
    };
    if o.as_object().is_none() {
        return None;
    }
    match fields::read_list_or_empty(o, "parts") {
        None => None,
        Some(None) => {
            let none: Vec<GeminiResponsePart> = Vec::new();
            assert(parts(none@) =~= Seq::empty());
            Some(none)
        },
        Some(Some(v)) => read_parts(v),
    }
}

fn read_candidate(j: &Json) -> (r: Option<GeminiCandidate>)
    ensures
        r matches Some(c) ==> candidate_of(j@) == Some(c@),
        r is None ==> candidate_of(j@) is None,
{
    let names: [&str; 3] = ["content", "finishReason", "groundingMetadata"];
    assert(fields::names_of(names@) =~= candidate_members());
    let listed = fields::read_listed(j, &names, 0);
    let o = match &listed {
        Some(r) => r,
        None => j,
    };
    if o.as_object().is_none() {
        return None;
    }
    let parts = match read_content(fields::read_member(o, "content")) {
        Some(p) => p,
        None => return None,
    };
    let finish_reason = match fields::read_maybe_text(o, "finishReason") {
        Some(t) => t,
        None => return None,
    };
    Some(
        GeminiCandidate {
            parts,
            finish_reason,
            grounding_metadata: copy_member(o, "groundingMetadata"),
        },
    )
}

fn read_candidates(v: &Vec<Json>) -> (r: Option<Vec<GeminiCandidate>>)
    ensures
        r matches Some(c) ==> all_candidates(json::trees(v@)) == Some(candidates(c@)),
        r is None ==> all_candidates(json::trees(v@)) is None,
{
    let ghost ts = json::trees(v@);
    let mut out: Vec<GeminiCandidate> = Vec::new();
    let mut i: usize = 0;
    assert(candidates(out@) =~= Seq::empty());
    while i < v.len()
        invariant
            i <= v@.len(),
            ts == json::trees(v@),
            all_candidates(ts.take(i as int)) == Some(candidates(out@)),
        decreases v@.len() - i,
    {
        assert(ts.take(i + 1).drop_last() =~= ts.take(i as int));
        assert(ts.take(i + 1).last() == v@[i as int]@);
        match read_candidate(&v[i]) {
            Some(c) => {
                let ghost before = out@;
                out.push(c);
                assert(candidates(out@) =~= candidates(before).push(c@));
            },
            None => {
                proof {
                    lemma_all_candidates_none(ts, i as int);
                }
                return None;
            },
        }
        i = i + 1;
    }
    assert(ts.take(i as int) =~= ts);
    Some(out)
}

fn read_count(j: &Json, key: &str) -> (r: Option<Option<u32>>)
    ensures
        r matches Some(n) ==> exists|k: Option<int>|
            fields::maybe_number(j@, key@, u32::MAX as int) == Some(k)
                && openai_stream::opt_count(k) == n,
        r is None ==> fields::maybe_number(j@, key@, u32::MAX as int) is None,
{
    match fields::read_maybe_number(j, key, u32::MAX as u64) {
        Some(Some(n)) => {
            assert(openai_stream::opt_count(Some(n as int)) == Some(n as u32));
            Some(Some(n as u32))
        },
        Some(None) => {
            assert(openai_stream::opt_count(None) == None::<u32>);
            Some(None)
        },
        None => None,
    }
}

fn read_usage(j: &Json) -> (r: Option<GeminiUsageMetadata>)
    ensures
        r == usage_of(j@),
{
    let names: [&str; 4] = [
        "promptTokenCount",
        "candidatesTokenCount",
        "thoughtsTokenCount",
        "cachedContentTokenCount",
    ];
    assert(fields::names_of(names@) =~= usage_members());
    let listed = fields::read_listed(j, &names, 0);
    let o = match &listed {
        Some(r) => r,
        None => j,
    };
    if o.as_object().is_none() {
        return None;
    }
    let prompt_token_count = match read_count(o, "promptTokenCount") {
        Some(n) => n,
        None => return None,
    };
    let candidates_token_count = match read_count(o, "candidatesTokenCount") {
        Some(n) => n,
        None => return None,
    };
    let thoughts_token_count = match read_count(o, "thoughtsTokenCount") {
        Some(n) => n,
        None => return None,
    };
    let cached_content_token_count = match read_count(o, "cachedContentTokenCount") {
        Some(n) => n,
        None => return None,
    };
    Some(
        GeminiUsageMetadata {
            prompt_token_count,
            candidates_token_count,
            thoughts_token_count,
            cached_content_token_count,
        },
    )
}

/// Reads an event.
pub fn read_gemini_event(j: &Json) -> (r: Option<GeminiStreamChunk>)
    ensures
        r matches Some(e) ==> event_of(j@) == Some(e@),
        r is None ==> event_of(j@) is None,
{
    let names: [&str; 3] = ["candidates", "usageMetadata", "responseId"];
    assert(fields::names_of(names@) =~= event_members());
    let listed = fields::read_listed(j, &names, 0);
    let o = match &listed {
        Some(r) => r,
        None => j,
    };
    if o.as_object().is_none() {
        return None;
    }
    let found = match fields::read_list_or_empty(o, "candidates") {
        None => return None,
        Some(None) => {
            let none: Vec<GeminiCandidate> = Vec::new();
            assert(candidates(none@) =~= Seq::empty());
            none
        },
        Some(Some(v)) => match read_candidates(v) {
            Some(c) => c,
            None => return None,
        },
    };
    let response_id = match fields::read_maybe_text(o, "responseId") {
        Some(t) => t,
        None => return None,
    };
    match fields::read_member(o, "usageMetadata") {
        None => Some(
            GeminiStreamChunk { candidates: found, usage_metadata: None, response_id },
        ),
        Some(u) => match read_usage(u) {
            Some(usage) => Some(
                GeminiStreamChunk { candidates: found, usage_metadata: Some(usage), response_id },
            ),
            None => None,
        },
    }
}

// ---------------------------------------------------------------------------
// State
// ---------------------------------------------------------------------------

/// A tool call of the response.
#[derive(Debug)]
pub struct GeminiCall {
    pub id: String,
    pub name: String,
    pub arguments: String,
    pub signature: Option<String>,
    /// The call was handed out; it is not replaced any more.
    pub completed: bool,
}

/// What is known of a response so far.
#[derive(Debug)]
pub struct GeminiStreamState {
    /// The tool calls, in the order in which their identifiers came.
    pub calls: Vec<GeminiCall>,
    pub last_stop_reason: Option<String>,
    pub last_grounding_metadata: Option<Json>,
}

/// The mathematical value of a call.
pub struct Call {
    pub id: Seq<char>,
    pub name: Seq<char>,
    pub arguments: Seq<char>,
    pub signature: Option<Seq<char>>,
    pub completed: bool,
}

/// The mathematical value of the state.
pub struct Gem {
    pub calls: Seq<Call>,
    pub stop: Option<Seq<char>>,
    pub grounding: Option<Tree>,
}

impl View for GeminiCall {
    type V = Call;

    open spec fn view(&self) -> Call {
        Call {
            id: self.id@,
            name: self.name@,
            arguments: self.arguments@,
            signature: text::opt(self.signature),
            completed: self.completed,
        }
    }
}

/// The values of a list of calls.
pub open spec fn call_values(v: Seq<GeminiCall>) -> Seq<Call> {
    v.map_values(|c: GeminiCall| c@)
}

impl View for GeminiStreamState {
    type V = Gem;

    open spec fn view(&self) -> Gem {
        Gem {
            calls: call_values(self.calls@),
            stop: text::opt(self.last_stop_reason),
            grounding: types::opt_tree(self.last_grounding_metadata),
        }
    }
}

/// The state before the first event.
pub open spec fn fresh_state() -> Gem {
    Gem { calls: Seq::empty(), stop: None, grounding: None }
}

impl Default for GeminiStreamState {
    fn default() -> (r: Self)
        ensures
            r@ == fresh_state(),
    {
        let r = GeminiStreamState {
            calls: Vec::new(),
            last_stop_reason: None,
            last_grounding_metadata: None,
        };
        assert(r@.calls =~= Seq::empty());
        r
    }
}

/// The position of the call with an identifier.
pub open spec fn position(calls: Seq<Call>, id: Seq<char>) -> Option<int>
    decreases calls.len(),
{
    if calls.len() == 0 {
        None
    } else if calls.last().id == id {
        Some(calls.len() - 1)
    } else {
        position(calls.drop_last(), id)
    }
}

/// The calls with one put: it replaces the one with its identifier, unless that one
/// was handed out already.
pub open spec fn with_call(calls: Seq<Call>, c: Call) -> Seq<Call> {
    match position(calls, c.id) {
        None => calls.push(c),
        Some(i) => if calls[i].completed {
            calls
        } else {
            calls.update(i, c)
        },
    }
}

/// Each identifier stands once, and no call exceeds the size limit.
pub open spec fn well_kept(calls: Seq<Call>) -> bool {
    &&& forall|i: int, j: int|
        0 <= i < j < calls.len() ==> (#[trigger] calls[i]).id != (#[trigger] calls[j]).id
    &&& forall|i: int|
        0 <= i < calls.len() ==> text::byte_len((#[trigger] calls[i]).arguments)
            <= types::MAX_TOOL_ARGUMENT_SIZE
}

/// The calls after all of them were handed out.
pub open spec fn handed_out(calls: Seq<Call>) -> Seq<Call> {
    calls.map_values(|c: Call| Call { completed: true, ..c })
}

/// The chunk of a call.
pub open spec fn call_chunk(c: Call, id: Option<Seq<char>>) -> Chunk {
    Chunk::ToolCall {
        call_id: Some(c.id),
        function_id: Some(c.id),
        name: Some(c.name),
        arguments: Some(tool_args::validated(c.arguments)),
        call_signature: c.signature,
        id,
        signature: c.signature,
    }
}

/// The chunks of the calls that were not handed out yet, in the order in which their
/// identifiers came.
pub open spec fn open_chunks(calls: Seq<Call>, id: Option<Seq<char>>) -> Seq<Chunk>
    decreases calls.len(),
{
    if calls.len() == 0 {
        Seq::empty()
    } else if calls.last().completed {
        open_chunks(calls.drop_last(), id)
    } else {
        open_chunks(calls.drop_last(), id).push(call_chunk(calls.last(), id))
    }
}

/// A call is handed out once.
pub proof fn law_calls_are_handed_out_once(calls: Seq<Call>, id: Option<Seq<char>>)
    ensures
        open_chunks(handed_out(calls), id) == Seq::<Chunk>::empty(),
        handed_out(handed_out(calls)) == handed_out(calls),
    decreases calls.len(),
{
    assert(handed_out(handed_out(calls)) =~= handed_out(calls));
    if calls.len() > 0 {
        law_calls_are_handed_out_once(calls.drop_last(), id);
        assert(handed_out(calls).drop_last() =~= handed_out(calls.drop_last()));
    }
}

pub proof fn lemma_position(calls: Seq<Call>, id: Seq<char>)
    ensures
        position(calls, id) matches Some(i) ==> 0 <= i < calls.len() && calls[i].id == id,
        position(calls, id) is None ==> forall|i: int|
            0 <= i < calls.len() ==> (#[trigger] calls[i]).id != id,
    decreases calls.len(),
{
    if calls.len() > 0 {
        lemma_position(calls.drop_last(), id);
        let p = calls.drop_last();
        assert(forall|i: int| 0 <= i < p.len() ==> p[i] == calls[i]);
    }
}

/// Putting a call within the size limit keeps each identifier once and every call
/// within the limit. A call that was handed out stays as it is.
pub proof fn law_with_call_keeps_order(calls: Seq<Call>, c: Call, i: int)
    requires
        well_kept(calls),
        text::byte_len(c.arguments) <= types::MAX_TOOL_ARGUMENT_SIZE,
    ensures
        well_kept(with_call(calls, c)),
        0 <= i < calls.len() && (calls[i].completed || calls[i].id != c.id) ==> with_call(
            calls,
            c,
        )[i] == calls[i],
{
    lemma_position(calls, c.id);
    let out = with_call(calls, c);
    assert forall|a: int, b: int| 0 <= a < b < out.len() implies (#[trigger] out[a]).id != (
    #[trigger] out[b]).id by {
        if b < calls.len() {
            assert(calls[a].id != calls[b].id);
        } else {
            assert(calls[a].id != c.id);
        }
    }
}

// ---------------------------------------------------------------------------
// What an event does
// ---------------------------------------------------------------------------

/// The identifier of a response.
pub open spec fn response_id(e: Event) -> Seq<char> {
    match e.id {
        Some(i) => i,
        None => "gemini-response"@,
    }
}

/// The identifier of a call: its own, or one made up from the response's and the number
/// of calls so far.
pub open spec fn call_id(c: FunctionCall, id: Seq<char>, n: nat) -> Seq<char> {
    match c.id {
        Some(i) => i,
        None => id + "-tool-"@ + text::decimal(n),
    }
}

/// The text of the arguments of a call, cut to the size limit at a character boundary.
pub open spec fn call_arguments(args: Option<Tree>) -> Seq<char> {
    match args {
        Some(a) => tool_args::appended(Seq::empty(), json::printed(a)),
        None => Seq::empty(),
    }
}

/// The signature that counts for a part: its own, or the last one before it.
pub open spec fn part_signature(p: Part, carried: Option<Seq<char>>) -> Option<Seq<char>> {
    match p.signature {
        Some(s) => Some(s),
        None => carried,
    }
}

/// The signature that is carried past a part. A call ends the carrying: of calls made
/// side by side only the first has the signature.
pub open spec fn carried_past(p: Part, carried: Option<Seq<char>>) -> Option<Seq<char>> {
    if p.call is Some {
        None
    } else {
        part_signature(p, carried)
    }
}

/// The signature that is carried past parts.
pub open spec fn carried_by(ps: Seq<Part>) -> Option<Seq<char>>
    decreases ps.len(),
{
    if ps.len() == 0 {
        None
    } else {
        carried_past(ps.last(), carried_by(ps.drop_last()))
    }
}

/// The chunks of a part: its thought or its text, or, where it has neither and no call,
/// its signature.
pub open spec fn part_chunks(p: Part, carried: Option<Seq<char>>, id: Seq<char>) -> Seq<Chunk> {
    let signature = part_signature(p, carried);
    match p.text {
        Some(t) => if p.thought == Some(true) {
            seq![
                Chunk::Reasoning {
                    reasoning: t,
                    details: None,
                    signature,
                    redacted_data: None,
                    id: Some(id),
                },
            ]
        } else {
            seq![Chunk::Text { text: t, id: Some(id), signature }]
        },
        None => if p.signature is Some && p.call is None {
            seq![Chunk::Text { text: Seq::empty(), id: Some(id), signature: p.signature }]
        } else {
            Seq::empty()
        },
    }
}

/// The tier of prices that a number of input tokens falls under.
pub open spec fn tier_for(tiers: Seq<ModelTier>, input: u32) -> Option<ModelTier>
    decreases tiers.len(),
{
    if tiers.len() == 0 {
        None
    } else if input <= tiers[0].context_window {
        Some(tiers[0])
    } else {
        tier_for(tiers.skip(1), input)
    }
}

/// A price: of the tier, or else of the model.
pub open spec fn tiered(price: u64, of_tier: Option<u64>) -> u64 {
    match of_tier {
        Some(p) => p,
        None => price,
    }
}

/// The prices of input and output, where the model has both.
pub open spec fn prices(m: Model, input: u32) -> Option<(u64, u64)> {
    match (m.input_price, m.output_price) {
        (Some(i), Some(o)) => {
            let tier = match m.tiers {
                Some(t) => tier_for(t, input),
                None => None,
            };
            match tier {
                Some(t) => Some((tiered(i, t.input_price), tiered(o, t.output_price))),
                None => Some((i, o)),
            }
        },
        _ => None,
    }
}

/// The input tokens that were not read from a cache.
pub open spec fn uncached(u: GeminiUsageMetadata) -> int {
    let all = openai_stream::count_or_zero(u.prompt_token_count);
    let cached = openai_stream::count_or_zero(u.cached_content_token_count);
    if all >= cached {
        all - cached
    } else {
        0
    }
}

/// What a response costs: each kind of token at its price; thoughts cost as much as
/// output.
pub open spec fn response_cost(u: GeminiUsageMetadata, m: Option<Model>) -> Option<u128> {
    match m {
        None => None,
        Some(m) => match prices(
            m,
            openai_stream::count_or_zero(u.prompt_token_count) as u32,
        ) {
            None => None,
            Some((i, o)) => Some(
                (i * uncached(u) + o * openai_stream::count_or_zero(u.candidates_token_count) + o
                    * openai_stream::count_or_zero(u.thoughts_token_count)
                    + openai_stream::price_or_zero(m.cache_reads_price)
                    * openai_stream::count_or_zero(u.cached_content_token_count)) as u128,
            ),
        },
    }
}

/// The token counts of a response as a chunk shows them.
pub open spec fn usage_value(
    u: GeminiUsageMetadata,
    stop: Option<Seq<char>>,
    m: Option<Model>,
    id: Seq<char>,
) -> Usage {
    Usage {
        input_tokens: uncached(u) as u32,
        output_tokens: openai_stream::count_or_zero(u.candidates_token_count) as u32,
        cache_write_tokens: None,
        cache_read_tokens: u.cached_content_token_count,
        reasoning_tokens: u.thoughts_token_count,
        thoughts_token_count: u.thoughts_token_count,
        total_cost: response_cost(u, m),
        stop_reason: stop,
        id: Some(id),
    }
}

/// The reason ends an answer, so that its calls can be made.
pub open spec fn is_end(stop: Option<Seq<char>>) -> bool {
    stop == Some("STOP"@) || stop == Some("MAX_TOKENS"@) || stop == Some("SAFETY"@)
}

/// The line of a source: its number, title and address.
pub open spec fn source_line(web: Tree, n: nat) -> Seq<char> {
    let title = match fields::text_of(web, "title"@) {
        Some(t) => t,
        None => Seq::empty(),
    };
    match fields::text_of(web, "uri"@) {
        Some(uri) => if uri.len() > 0 {
            text::decimal(n) + ". ["@ + title + "]("@ + uri + ")\n"@
        } else {
            Seq::empty()
        },
        None => Seq::empty(),
    }
}

/// The list of sources, under its heading.
pub open spec fn source_list(chunks: Seq<Tree>) -> Seq<char>
    decreases chunks.len(),
{
    if chunks.len() == 0 {
        "\n\n**Sources:**\n"@
    } else {
        let rest = source_list(chunks.drop_last());
        match chunks.last().get("web"@) {
            Some(web) => rest + source_line(web, chunks.len()),
            None => rest,
        }
    }
}

/// The chunk that lists the sources of an answer, where it has any.
pub open spec fn source_chunks(grounding: Option<Tree>) -> Seq<Chunk> {
    match grounding {
        Some(g) => match fields::list_of(g, "groundingChunks"@) {
            Some(v) => if v.len() > 0 && text::byte_len(source_list(v)) > 17 {
                seq![types::text_chunk(source_list(v), None)]
            } else {
                Seq::empty()
            },
            None => Seq::empty(),
        },
        None => Seq::empty(),
    }
}

/// The state of a response and the chunks that were emitted so far.
pub struct Progress {
    pub state: Gem,
    pub chunks: Seq<Chunk>,
}

impl Progress {
    /// Takes a part in; `carried` is the signature that came before it.
    pub open spec fn part(self, p: Part, carried: Option<Seq<char>>, id: Seq<char>) -> Progress {
        Progress {
            state: match p.call {
                None => self.state,
                Some(c) => Gem {
                    calls: with_call(
                        self.state.calls,
                        Call {
                            id: call_id(c, id, self.state.calls.len()),
                            name: c.name,
                            arguments: call_arguments(c.args),
                            signature: part_signature(p, carried),
                            completed: false,
                        },
                    ),
                    ..self.state
                },
            },
            chunks: self.chunks + part_chunks(p, carried, id),
        }
    }

    /// Takes the parts of a candidate in.
    pub open spec fn parts(self, ps: Seq<Part>, id: Seq<char>) -> Progress
        decreases ps.len(),
    {
        if ps.len() == 0 {
            self
        } else {
            self.parts(ps.drop_last(), id).part(ps.last(), carried_by(ps.drop_last()), id)
        }
    }

    /// Takes a candidate in: its parts, and what it says of its end and its sources.
    pub open spec fn candidate(self, c: Candidate, id: Seq<char>) -> Progress {
        let p = self.parts(c.parts, id);
        Progress {
            state: Gem {
                stop: match c.finish {
                    Some(f) => Some(f),
                    None => p.state.stop,
                },
                grounding: match c.grounding {
                    Some(g) => Some(g),
                    None => p.state.grounding,
                },
                ..p.state
            },
            ..p
        }
    }

    /// Takes candidates in.
    pub open spec fn candidates(self, cs: Seq<Candidate>, id: Seq<char>) -> Progress
        decreases cs.len(),
    {
        if cs.len() == 0 {
            self
        } else {
            self.candidates(cs.drop_last(), id).candidate(cs.last(), id)
        }
    }

    /// Hands out the calls that were not handed out yet.
    pub open spec fn hand_out(self, id: Option<Seq<char>>) -> Progress {
        Progress {
            state: Gem { calls: handed_out(self.state.calls), ..self.state },
            chunks: self.chunks + open_chunks(self.state.calls, id),
        }
    }

    /// Takes an event in: its candidates, then the calls where the answer has ended,
    /// then the token counts.
    pub open spec fn event(self, e: Event, m: Option<Model>) -> Progress {
        let id = response_id(e);
        let a = self.candidates(e.candidates, id);
        let b = if is_end(a.state.stop) {
            a.hand_out(Some(id))
        } else {
            a
        };
        match e.usage {
            Some(u) => Progress {
                chunks: b.chunks.push(Chunk::Usage(usage_value(u, b.state.stop, m, id))),
                ..b
            },
            None => b,
        }
    }

    /// Takes a line in. A line that is no event is passed over.
    pub open spec fn line(self, line: Seq<char>, m: Option<Model>) -> Progress {
        let l = text::trimmed(line);
        if l.len() == 0 || l == "data: [DONE]"@ {
            self
        } else {
            let d = match stream_events::payload(l) {
                Some(d) => d,
                None => l,
            };
            match json::parsed(d) {
                None => self,
                Some(t) => match event_of(t) {
                    None => self,
                    Some(e) => self.event(e, m),
                },
            }
        }
    }

    /// Takes lines in, in order.
    pub open spec fn lines(self, lines: Seq<Seq<char>>, m: Option<Model>) -> Progress
        decreases lines.len(),
    {
        if lines.len() == 0 {
            self
        } else {
            self.lines(lines.drop_last(), m).line(lines.last(), m)
        }
    }

    /// Takes bytes in that a buffer cut into lines.
    pub open spec fn bytes(self, buffer: LineState, bytes: Seq<u8>, m: Option<Model>) -> Progress {
        let (b, raw) = buffer.push(bytes);
        let p = self.lines(sse::decoded(raw), m);
        if b.exceeded {
            Progress { chunks: p.chunks.push(Chunk::Error(sse::overflow_text(b.max))), ..p }
        } else {
            p
        }
    }

    /// The end of a response: the calls that are left, then the sources.
    pub open spec fn finish(self) -> Progress {
        let p = self.hand_out(None);
        Progress { chunks: p.chunks + source_chunks(p.state.grounding), ..p }
    }
}

/// The state and the chunks of a response so far.
pub open spec fn progress(s: Gem, out: Seq<ApiStreamChunk>) -> Progress {
    Progress { state: s, chunks: types::chunks(out) }
}

/// The value of an optional model description.
pub open spec fn opt_model(m: Option<ModelInfo>) -> Option<Model> {
    match m {
        Some(i) => Some(i@),
        None => None,
    }
}

/// Events keep each identifier once and every call within the size limit.
pub proof fn law_event_keeps_calls(p: Progress, e: Event, m: Option<Model>)
    requires
        well_kept(p.state.calls),
    ensures
        well_kept(p.event(e, m).state.calls),
        well_kept(p.finish().state.calls),
{
    let id = response_id(e);
    lemma_candidates_keep_calls(p, e.candidates, id);
    lemma_handed_out_keeps(p.candidates(e.candidates, id).state.calls);
    lemma_handed_out_keeps(p.state.calls);
}

pub proof fn lemma_handed_out_keeps(calls: Seq<Call>)
    requires
        well_kept(calls),
    ensures
        well_kept(handed_out(calls)),
{
    let out = handed_out(calls);
    assert forall|i: int, j: int| 0 <= i < j < out.len() implies (#[trigger] out[i]).id != (
    #[trigger] out[j]).id by {
        assert(calls[i].id != calls[j].id);
    }
    assert forall|i: int| 0 <= i < out.len() implies text::byte_len((#[trigger] out[i]).arguments)
        <= types::MAX_TOOL_ARGUMENT_SIZE by {
        assert(calls[i].arguments == out[i].arguments);
    }
}

proof fn lemma_candidates_keep_calls(p: Progress, cs: Seq<Candidate>, id: Seq<char>)
    requires
        well_kept(p.state.calls),
    ensures
        well_kept(p.candidates(cs, id).state.calls),
    decreases cs.len(),
{
    if cs.len() > 0 {
        lemma_candidates_keep_calls(p, cs.drop_last(), id);
        lemma_parts_keep_calls(p.candidates(cs.drop_last(), id), cs.last().parts, id);
    }
}

pub proof fn lemma_parts_keep_calls(p: Progress, ps: Seq<Part>, id: Seq<char>)
    requires
        well_kept(p.state.calls),
    ensures
        well_kept(p.parts(ps, id).state.calls),
    decreases ps.len(),
{
    if ps.len() > 0 {
        lemma_parts_keep_calls(p, ps.drop_last(), id);
        let q = p.parts(ps.drop_last(), id);
        let part = ps.last();
        if let Some(c) = part.call {
            assert(text::byte_len(Seq::<char>::empty()) == 0);
            if let Some(a) = c.args {
                tool_args::law_arguments_stay_within_limit(Seq::empty(), json::printed(a));
            }
            law_with_call_keeps_order(
                q.state.calls,
                Call {
                    id: call_id(c, id, q.state.calls.len()),
                    name: c.name,
                    arguments: call_arguments(c.args),
                    signature: part_signature(part, carried_by(ps.drop_last())),
                    completed: false,
                },
                0,
            );
        }
    }
}

/// Of two calls side by side, the second does not take the signature of the first.
pub proof fn law_second_call_takes_no_signature(a: Part, b: Part, carried: Option<Seq<char>>)
    requires
        a.call is Some,
        b.signature is None,
    ensures
        part_signature(b, carried_past(a, carried)) is None,
{
}

/// The thoughts and the answer of a part are never mixed: a part yields one chunk at
/// most, and a thought yields reasoning.
pub proof fn law_part_yields_one_chunk(p: Part, carried: Option<Seq<char>>, id: Seq<char>)
    ensures
        part_chunks(p, carried, id).len() <= 1,
        p.text is Some && p.thought == Some(true) ==> part_chunks(p, carried, id)[0] is Reasoning,
        p.text is Some && p.thought != Some(true) ==> part_chunks(p, carried, id)[0] is Text,
{
}

fn find_call(calls: &Vec<GeminiCall>, id: &str) -> (r: Option<usize>)
    ensures
        r matches Some(i) ==> i < calls@.len() && position(call_values(calls@), id@) == Some(
            i as int,
        ),
        r is None ==> position(call_values(calls@), id@) is None,
{
    let ghost cs = call_values(calls@);
    let mut n: usize = calls.len();
    assert(cs.take(n as int) =~= cs);
    while n > 0
        invariant
            n <= calls@.len(),
            cs == call_values(calls@),
            position(cs.take(n as int), id@) == position(cs, id@),
        decreases n,
    {
        assert(cs.take(n as int).drop_last() =~= cs.take(n - 1));
        assert(cs.take(n as int).last() == calls@[n - 1]@);
        if text::same(calls[n - 1].id.as_str(), id) {
            return Some(n - 1);
        }
        n = n - 1;
    }
    None
}

fn put_call(calls: &mut Vec<GeminiCall>, c: GeminiCall)
    ensures
        call_values(final(calls)@) == with_call(call_values(old(calls)@), c@),
{
    let ghost before = call_values(calls@);
    match find_call(calls, c.id.as_str()) {
        None => {
            calls.push(c);
            assert(call_values(calls@) =~= before.push(c@));
        },
        Some(i) => {
            assert(before[i as int] == calls@[i as int]@);
            if !calls[i].completed {
                calls[i] = c;
                assert(call_values(calls@) =~= before.update(i as int, c@));
            }
        },
    }
}

fn take_part(
    part: &GeminiResponsePart,
    carried: &Option<String>,
    id: &str,
    s: &mut GeminiStreamState,
    out: &mut Vec<ApiStreamChunk>,
)
    ensures
        progress(final(s)@, final(out)@) == progress(old(s)@, old(out)@).part(
            part@,
            text::opt(*carried),
            id@,
        ),
{
    let ghost start = progress(s@, out@);
    let signature = match &part.thought_signature {
        Some(g) => Some(g.clone()),
        None => text::copy_opt(carried),
    };
    match &part.text {
        Some(t) => {
            if part.thought.is_some() && part.thought.unwrap() {
                types::emit(
                    out,
                    ApiStreamChunk::Reasoning(
                        ApiStreamReasoningChunk {
                            reasoning: t.clone(),
                            details: None,
                            signature: text::copy_opt(&signature),
                            redacted_data: None,
                            id: Some(id.to_owned()),
                        },
                    ),
                );
            } else {
                types::emit(
                    out,
                    ApiStreamChunk::Text(
                        ApiStreamTextChunk {
                            text: t.clone(),
                            id: Some(id.to_owned()),
                            signature: text::copy_opt(&signature),
                        },
                    ),
                );
            }
        },
        None => {
            if part.thought_signature.is_some() && part.function_call.is_none() {
                types::emit(
                    out,
                    ApiStreamChunk::Text(
                        ApiStreamTextChunk {
                            text: String::new(),
                            id: Some(id.to_owned()),
                            signature: text::copy_opt(&part.thought_signature),
                        },
                    ),
                );
            }
        },
    }
    if let Some(c) = &part.function_call {
        let call_id = match &c.id {
            Some(i) => i.clone(),
            None => {
                let mut made = id.to_owned();
                text::push_text(&mut made, "-tool-");
                let n = text::number_text(s.calls.len() as u64);
                text::push_text(&mut made, n.as_str());
                made
            },
        };
        let mut arguments = String::new();
        if let Some(a) = &c.args {
            let printed = json::print(a);
            tool_args::append_args(&mut arguments, printed.as_str());
        }
        put_call(
            &mut s.calls,
            GeminiCall {
                id: call_id,
                name: c.name.clone(),
                arguments,
                signature,
                completed: false,
            },
        );
    }
    assert(types::chunks(out@) =~= start.chunks + part_chunks(part@, text::opt(*carried), id@));
}

fn take_candidate(
    c: &GeminiCandidate,
    id: &str,
    s: &mut GeminiStreamState,
    out: &mut Vec<ApiStreamChunk>,
)
    ensures
        progress(final(s)@, final(out)@) == progress(old(s)@, old(out)@).candidate(c@, id@),
{
    let ghost start = progress(s@, out@);
    let ghost ps = c@.parts;
    let mut carried: Option<String> = None;
    let mut i: usize = 0;
    while i < c.parts.len()
        invariant
            i <= c.parts@.len(),
            ps == parts(c.parts@),
            text::opt(carried) == carried_by(ps.take(i as int)),
            progress(s@, out@) == start.parts(ps.take(i as int), id@),
        decreases c.parts@.len() - i,
    {
        assert(ps.take(i + 1).drop_last() =~= ps.take(i as int));
        assert(ps.take(i + 1).last() == c.parts@[i as int]@);
        take_part(&c.parts[i], &carried, id, s, out);
        if c.parts[i].function_call.is_some() {
            carried = None;
        } else if let Some(g) = &c.parts[i].thought_signature {
            carried = Some(g.clone());
        }
        i = i + 1;
    }
    assert(ps.take(i as int) =~= ps);
    if let Some(f) = &c.finish_reason {
        s.last_stop_reason = Some(f.clone());
    }
    if let Some(g) = &c.grounding_metadata {
        s.last_grounding_metadata = Some(g.copy());
    }
}

fn hand_out(s: &mut GeminiStreamState, id: &Option<String>, out: &mut Vec<ApiStreamChunk>)
    ensures
        progress(final(s)@, final(out)@) == progress(old(s)@, old(out)@).hand_out(text::opt(*id)),
{
    let ghost start = progress(s@, out@);
    let ghost cs = s@.calls;
    let ghost hs = handed_out(cs);
    let mut i: usize = 0;
    assert(start.chunks + open_chunks(cs.take(0), text::opt(*id)) =~= start.chunks);
    while i < s.calls.len()
        invariant
            i <= s.calls@.len(),
            s.calls@.len() == cs.len(),
            hs == handed_out(cs),
            s@.stop == start.state.stop,
            s@.grounding == start.state.grounding,
            forall|k: int| 0 <= k < i ==> (#[trigger] s.calls@[k])@ == hs[k],
            forall|k: int| i <= k < cs.len() ==> (#[trigger] s.calls@[k])@ == cs[k],
            types::chunks(out@) == start.chunks + open_chunks(cs.take(i as int), text::opt(*id)),
        decreases s.calls@.len() - i,
    {
        assert(cs.take(i + 1).drop_last() =~= cs.take(i as int));
        assert(s.calls@[i as int]@ == cs[i as int]);
        if !s.calls[i].completed {
            let c = &s.calls[i];
            let arguments = tool_args::validate_tool_call_args(
                c.arguments.as_str(),
                "Gemini",
                "on finish",
            );
            let ghost before = types::chunks(out@);
            types::emit(
                out,
                ApiStreamChunk::ToolCalls(
                    ApiStreamToolCallsChunk {
                        tool_call: ApiStreamToolCall {
                            call_id: Some(c.id.clone()),
                            function: ApiStreamToolCallFunction {
                                id: Some(c.id.clone()),
                                name: Some(c.name.clone()),
                                arguments: Some(arguments),
                            },
                            signature: text::copy_opt(&c.signature),
                        },
                        id: text::copy_opt(id),
                        signature: text::copy_opt(&c.signature),
                    },
                ),
            );
            let done = GeminiCall {
                id: c.id.clone(),
                name: c.name.clone(),
                arguments: c.arguments.clone(),
                signature: text::copy_opt(&c.signature),
                completed: true,
            };
            assert(done@ == hs[i as int]);
            s.calls[i] = done;
            assert(types::chunks(out@) =~= start.chunks + open_chunks(
                cs.take(i + 1),
                text::opt(*id),
            ));
        } else {
            assert(cs[i as int] == hs[i as int]);
        }
        i = i + 1;
    }
    assert(cs.take(i as int) =~= cs);
    assert(s@.calls =~= hs);
}

fn find_tier(tiers: &Vec<ModelTier>, input: u32) -> (r: Option<ModelTier>)
    ensures
        r == tier_for(tiers@, input),
{
    let mut i: usize = 0;
    assert(tiers@.skip(0) =~= tiers@);
    while i < tiers.len()
        invariant
            i <= tiers@.len(),
            tier_for(tiers@.skip(i as int), input) == tier_for(tiers@, input),
        decreases tiers@.len() - i,
    {
        assert(tiers@.skip(i as int)[0] == tiers@[i as int]);
        if input as u64 <= tiers[i].context_window {
            return Some(tiers[i]);
        }
        assert(tiers@.skip(i as int).skip(1) =~= tiers@.skip(i + 1));
        i = i + 1;
    }
    None
}

fn or_zero(n: Option<u32>) -> (r: u32)
    ensures
        r == openai_stream::count_or_zero(n),
{
    match n {
        Some(k) => k,
        None => 0,
    }
}

fn make_cost(u: &GeminiUsageMetadata, model_info: &Option<ModelInfo>) -> (r: Option<u128>)
    ensures
        r == response_cost(*u, opt_model(*model_info)),
{
    let info = match model_info {
        Some(i) => i,
        None => return None,
    };
    let mut input_price: u64 = match info.input_price {
        Some(p) => p,
        None => return None,
    };
    let mut output_price: u64 = match info.output_price {
        Some(p) => p,
        None => return None,
    };
    let input: u32 = or_zero(u.prompt_token_count);
    if let Some(tiers) = &info.tiers {
        if let Some(t) = find_tier(tiers, input) {
            if let Some(p) = t.input_price {
                input_price = p;
            }
            if let Some(p) = t.output_price {
                output_price = p;
            }
        }
    }
    let cached: u32 = or_zero(u.cached_content_token_count);
    let reads: u64 = match info.cache_reads_price {
        Some(p) => p,
        None => 0,
    };
    let a: u128 = openai_stream::charge(input_price, input.saturating_sub(cached));
    let b: u128 = openai_stream::charge(output_price, or_zero(u.candidates_token_count));
    let c: u128 = openai_stream::charge(output_price, or_zero(u.thoughts_token_count));
    let d: u128 = openai_stream::charge(reads, cached);
    Some(a + b + c + d)
}

/// The token counts of a response as a chunk shows them.
pub fn gemini_usage_chunk(
    u: &GeminiUsageMetadata,
    stop_reason: Option<String>,
    model_info: &Option<ModelInfo>,
    id: &str,
) -> (r: ApiStreamUsageChunk)
    ensures
        r@ == usage_value(*u, text::opt(stop_reason), opt_model(*model_info), id@),
{
    let cached: u32 = or_zero(u.cached_content_token_count);
    let input: u32 = or_zero(u.prompt_token_count);
    ApiStreamUsageChunk {
        input_tokens: input.saturating_sub(cached),
        output_tokens: or_zero(u.candidates_token_count),
        cache_write_tokens: None,
        cache_read_tokens: u.cached_content_token_count,
        reasoning_tokens: u.thoughts_token_count,
        thoughts_token_count: u.thoughts_token_count,
        total_cost: make_cost(u, model_info),
        stop_reason,
        id: Some(id.to_owned()),
    }
}

/// Takes an event in.
pub fn process_gemini_event(
    e: &GeminiStreamChunk,
    model_info: &Option<ModelInfo>,
    s: &mut GeminiStreamState,
    out: &mut Vec<ApiStreamChunk>,
)
    ensures
        progress(final(s)@, final(out)@) == progress(old(s)@, old(out)@).event(
            e@,
            opt_model(*model_info),
        ),
{
    let ghost start = progress(s@, out@);
    let id = match &e.response_id {
        Some(i) => i.clone(),
        None => "gemini-response".to_owned(),
    };
    let ghost cs = e@.candidates;
    let mut i: usize = 0;
    while i < e.candidates.len()
        invariant
            i <= e.candidates@.len(),
            cs == candidates(e.candidates@),
            progress(s@, out@) == start.candidates(cs.take(i as int), id@),
        decreases e.candidates@.len() - i,
    {
        assert(cs.take(i + 1).drop_last() =~= cs.take(i as int));
        assert(cs.take(i + 1).last() == e.candidates@[i as int]@);
        take_candidate(&e.candidates[i], id.as_str(), s, out);
        i = i + 1;
    }
    assert(cs.take(i as int) =~= cs);
    let ended = match &s.last_stop_reason {
        Some(f) => text::same(f.as_str(), "STOP") || text::same(f.as_str(), "MAX_TOKENS")
            || text::same(f.as_str(), "SAFETY"),
        None => false,
    };
    if ended {
        let shown = Some(id.clone());
        hand_out(s, &shown, out);
    }
    if let Some(u) = &e.usage_metadata {
        let stop = text::copy_opt(&s.last_stop_reason);
        types::emit(
            out,
            ApiStreamChunk::Usage(gemini_usage_chunk(u, stop, model_info, id.as_str())),
        );
    }
}

/// Takes a line of the response in.
pub fn process_gemini_sse_line(
    line: &str,
    model_info: &Option<ModelInfo>,
    s: &mut GeminiStreamState,
    out: &mut Vec<ApiStreamChunk>,
)
    ensures
        progress(final(s)@, final(out)@) == progress(old(s)@, old(out)@).line(
            line@,
            opt_model(*model_info),
        ),
{
    let l = text::trim(line);
    if l.as_str().is_empty() || text::same(l.as_str(), "data: [DONE]") {
        return;
    }
    let d = match stream_events::line_payload(l.as_str()) {
        Some(d) => d,
        None => l,
    };
    if let Some(j) = json::parse(d.as_str()) {
        if let Some(e) = read_gemini_event(&j) {
            process_gemini_event(&e, model_info, s, out);
        }
    }
}

/// Takes bytes of the response in: every line that they complete, and the report of a
/// line that grew too long.
pub fn take_gemini_bytes(
    chunk: &[u8],
    buffer: &mut SseLineBuffer,
    model_info: &Option<ModelInfo>,
    s: &mut GeminiStreamState,
    out: &mut Vec<ApiStreamChunk>,
)
    ensures
        final(buffer)@ == sse::buffer_after(old(buffer)@, chunk@),
        progress(final(s)@, final(out)@) == progress(old(s)@, old(out)@).bytes(
            old(buffer)@,
            chunk@,
            opt_model(*model_info),
        ),
{
    let lines = buffer.push_chunk(chunk);
    let ghost start = progress(s@, out@);
    let ghost ts = text::texts(lines@);
    let mut i: usize = 0;
    assert(ts.take(0) =~= Seq::empty());
    while i < lines.len()
        invariant
            i <= lines@.len(),
            ts == text::texts(lines@),
            progress(s@, out@) == start.lines(ts.take(i as int), opt_model(*model_info)),
        decreases lines@.len() - i,
    {
        proof {
            assert(ts.take(i + 1).drop_last() =~= ts.take(i as int));
            assert(ts.take(i + 1).last() == lines@[i as int]@);
        }
        process_gemini_sse_line(lines[i].as_str(), model_info, s, out);
        i = i + 1;
    }
    assert(ts.take(i as int) =~= ts);
    if let Some(e) = buffer.take_error() {
        types::emit_error(out, e.as_str());
    }
}

fn make_source_line(web: &Json, n: u64) -> (r: String)
    ensures
        r@ == source_line(web@, n as nat),
{
    let title = match fields::read_text(web, "title") {
        Some(t) => t,
        None => String::new(),
    };
    match fields::read_text(web, "uri") {
        Some(uri) => {
            if uri.as_str().is_empty() {
                return String::new();
            }
            let mut r = text::number_text(n);
            text::push_text(&mut r, ". [");
            text::push_text(&mut r, title.as_str());
            text::push_text(&mut r, "](");
            text::push_text(&mut r, uri.as_str());
            text::push_text(&mut r, ")\n");
            r
        },
        None => String::new(),
    }
}

/// The list of sources, under its heading.
pub fn make_source_list(chunks: &Vec<Json>) -> (r: String)
    ensures
        r@ == source_list(json::trees(chunks@)),
{
    let ghost ts = json::trees(chunks@);
    let mut r = "\n\n**Sources:**\n".to_owned();
    let mut i: usize = 0;
    while i < chunks.len()
        invariant
            i <= chunks@.len(),
            ts == json::trees(chunks@),
            r@ == source_list(ts.take(i as int)),
        decreases chunks@.len() - i,
    {
        assert(ts.take(i + 1).drop_last() =~= ts.take(i as int));
        assert(ts.take(i + 1).last() == chunks@[i as int]@);
        i = i + 1;
        if let Some(web) = chunks[i - 1].get("web") {
            let line = make_source_line(web, i as u64);
            text::push_text(&mut r, line.as_str());
        }
    }
    assert(ts.take(i as int) =~= ts);
    r
}

/// Ends the response: hands out the calls that are left and lists the sources.
pub fn finish_gemini_sse_to_chunks(s: &mut GeminiStreamState, out: &mut Vec<ApiStreamChunk>)
    ensures
        progress(final(s)@, final(out)@) == progress(old(s)@, old(out)@).finish(),
{
    hand_out(s, &None, out);
    let ghost before = types::chunks(out@);
    assert(before + Seq::<Chunk>::empty() =~= before);
    if let Some(g) = &s.last_grounding_metadata {
        if let Some(v) = fields::read_list(g, "groundingChunks") {
            if v.len() > 0 {
                let list = make_source_list(v);
                if text::byte_count(list.as_str()) > 17 {
                    types::emit_text(out, list.as_str(), &None);
                    assert(types::chunks(out@) =~= before + source_chunks(s@.grounding));
                }
            }
        }
    }
}

/// The report of a transfer that broke off.
pub fn gemini_stream_error(error: &str) -> (r: String)
    ensures
        r@ == sse::broken_off("Gemini SSE stream error: "@, error@),
{
    sse::stream_error("Gemini SSE stream error: ", error)
}

} // verus!
