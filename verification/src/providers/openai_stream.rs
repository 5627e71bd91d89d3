//! Assembly of an OpenAI-compatible response, streamed or whole.

use crate::fields;
use crate::json;
use crate::json::{Json, Tree};
use crate::providers::calls;
use crate::providers::calls::{Call, CallTable};
use crate::providers::reasoning;
use crate::providers::sse;
use crate::providers::sse::{LineState, SseLineBuffer};
use crate::providers::stream_events;
use crate::providers::stream_events::{ToolDelta, ToolPart};
use crate::providers::tool_args;
use crate::providers::types;
use crate::providers::types::{
    ApiStreamChunk, ApiStreamUsageChunk, Chunk, CompatModel, OpenAiCompatibleModelInfo, Usage,
};
use crate::text;
use vstd::prelude::*;

verus! {

// ---------------------------------------------------------------------------
// Tool names
// ---------------------------------------------------------------------------

/// A character that a tool name may hold.
pub open spec fn is_name_char(c: char) -> bool {
    ('a' <= c <= 'z') || ('A' <= c <= 'Z') || ('0' <= c <= '9') || c == '_' || c == '-'
}

/// A tool name that is safe to hand on: not empty, of letters, digits, `_` and `-`.
pub open spec fn is_safe_name(s: Seq<char>) -> bool {
    s.len() > 0 && forall|i: int| 0 <= i < s.len() ==> is_name_char(#[trigger] s[i])
}

/// Whether a tool name is safe to hand on.
pub fn is_safe_tool_name(name: &str) -> (r: bool)
    ensures
        r == is_safe_name(name@),
{
    let v = text::chars_of(name);
    if v.len() == 0 {
        return false;
    }
    let mut i: usize = 0;
    while i < v.len()
        invariant
            v@ == name@,
            i <= v@.len(),
            forall|j: int| 0 <= j < i ==> is_name_char(#[trigger] v@[j]),
        decreases v@.len() - i,
    {
        let c: char = v[i];
        if !((c >= 'a' && c <= 'z') || (c >= 'A' && c <= 'Z') || (c >= '0' && c <= '9') || c == '_'
            || c == '-') {
            assert(!is_name_char(v@[i as int]));
            return false;
        }
        i = i + 1;
    }
    true
}

/// What Qwen puts between a tool name and its repetition.
pub open spec fn qwen_separator() -> Seq<char> {
    "\n</think>\n\n<tool_call>\n<function="@
}

/// The tool name in a Qwen thinking wrapper: the same safe name before and after the
/// separator.
pub open spec fn qwen_name(name: Seq<char>) -> Option<Seq<char>> {
    match text::find_from(name, qwen_separator(), 0) {
        None => None,
        Some(i) => {
            let wrapped = name.skip(i + qwen_separator().len());
            let f = if text::ends(wrapped, ">"@) {
                wrapped.take(wrapped.len() - ">"@.len())
            } else {
                wrapped
            };
            if text::trimmed(name.take(i)) == f && is_safe_name(f) {
                Some(f)
            } else {
                None
            }
        },
    }
}

/// The tool name in a Qwen thinking wrapper, where there is one.
pub fn normalize_qwen_thinking_tool_name(name: &str) -> (r: Option<String>)
    ensures
        text::opt(r) == qwen_name(name@),
{
    let v = text::chars_of(name);
    let sep = text::chars_of("\n</think>\n\n<tool_call>\n<function=");
    let total: usize = v.len();
    let i: usize = match text::position_from(&v, &sep, 0) {
        Some(i) => i,
        None => return None,
    };
    proof {
        text::lemma_find_from(name@, qwen_separator(), 0);
    }
    let initial = text::substring(&v, 0, i);
    assert(initial@ =~= name@.take(i as int));
    let wrapped = text::substring(&v, i + sep.len(), total);
    assert(wrapped@ =~= name@.skip(i + qwen_separator().len()));
    let function_name = match text::strip_suffix(wrapped.as_str(), ">") {
        Some(f) => f,
        None => wrapped,
    };
    let trimmed = text::trim(initial.as_str());
    if text::same(trimmed.as_str(), function_name.as_str()) && is_safe_tool_name(
        function_name.as_str(),
    ) {
        Some(function_name)
    } else {
        None
    }
}

/// A tool name without its Qwen wrapper.
pub open spec fn plain_name(name: Seq<char>) -> Seq<char> {
    match qwen_name(name) {
        Some(f) => f,
        None => name,
    }
}

/// A tool name without its Qwen wrapper.
pub fn make_plain_name(name: &str) -> (r: String)
    ensures
        r@ == plain_name(name@),
{
    match normalize_qwen_thinking_tool_name(name) {
        Some(f) => f,
        None => name.to_owned(),
    }
}

// ---------------------------------------------------------------------------
// Events
// ---------------------------------------------------------------------------

/// The token counts of a response.
#[derive(Debug, Clone, Copy)]
pub struct OpenAiUsage {
    pub prompt_tokens: u32,
    pub completion_tokens: u32,
    pub cached_tokens: Option<u32>,
    pub reasoning_tokens: Option<u32>,
    pub prompt_cache_miss_tokens: Option<u32>,
}

/// One choice of an event.
#[derive(Debug)]
pub struct OpenAiChoice {
    pub content: Option<String>,
    pub reasoning_content: Option<String>,
    pub tool_calls: Vec<ToolDelta>,
    pub refusal: Option<String>,
    pub finish_reason: Option<String>,
}

/// An event of a streamed response.
#[derive(Debug)]
pub struct OpenAiStreamChunk {
    pub id: String,
    /// The first choice, where the event has one.
    pub choice: Option<OpenAiChoice>,
    pub usage: Option<OpenAiUsage>,
}

/// The mathematical value of a choice.
pub struct Choice {
    pub content: Option<Seq<char>>,
    pub reasoning: Option<Seq<char>>,
    pub tools: Seq<ToolPart>,
    pub refusal: Option<Seq<char>>,
    pub finish: Option<Seq<char>>,
}

/// The mathematical value of an event.
pub struct Event {
    pub id: Seq<char>,
    pub choice: Option<Choice>,
    pub usage: Option<OpenAiUsage>,
}

impl View for OpenAiChoice {
    type V = Choice;

    open spec fn view(&self) -> Choice {
        Choice {
            content: text::opt(self.content),
            reasoning: text::opt(self.reasoning_content),
            tools: stream_events::tool_parts(self.tool_calls@),
            refusal: text::opt(self.refusal),
            finish: text::opt(self.finish_reason),
        }
    }
}

impl View for OpenAiStreamChunk {
    type V = Event;

    open spec fn view(&self) -> Event {
        Event {
            id: self.id@,
            choice: match self.choice {
                Some(c) => Some(c@),
                None => None,
            },
            usage: self.usage,
        }
    }
}

/// A list that counts as empty where it is missing or null.
pub open spec fn list_or_null(t: Tree, key: Seq<char>) -> Option<Seq<Tree>> {
    match t.get(key) {
        Some(Tree::Null) => Some(Seq::empty()),
        _ => fields::list_or_empty(t, key),
    }
}

/// The number of an optional count.
pub open spec fn opt_count(n: Option<int>) -> Option<u32> {
    match n {
        Some(k) => Some(k as u32),
        None => None,
    }
}

/// The members of the details of input tokens.
pub open spec fn prompt_details_members() -> Seq<Seq<char>> {
    seq!["cached_tokens"@]
}

/// The members of the details of output tokens.
pub open spec fn completion_details_members() -> Seq<Seq<char>> {
    seq!["reasoning_tokens"@]
}

/// The members of token counts.
pub open spec fn usage_members() -> Seq<Seq<char>> {
    seq![
        "prompt_tokens"@,
        "completion_tokens"@,
        "prompt_tokens_details"@,
        "completion_tokens_details"@,
        "prompt_cache_miss_tokens"@,
    ]
}

/// The token counts that a JSON object describes.
pub open spec fn usage_of(t: Tree) -> Option<OpenAiUsage> {
    let t = fields::record(t, usage_members(), 5);
    let max = u32::MAX as int;
    let cached = match fields::maybe_member(t, "prompt_tokens_details"@) {
        None => Some(None::<int>),
        Some(d) => match fields::number_of(
            fields::record(d, prompt_details_members(), 1),
            "cached_tokens"@,
            max,
        ) {
            Some(n) => Some(Some(n)),
            None => None,
        },
    };
    let reasoning = match fields::maybe_member(t, "completion_tokens_details"@) {
        None => Some(None::<int>),
        Some(d) => {
            let r = fields::record(d, completion_details_members(), 1);
            if r is Obj {
                fields::maybe_number(r, "reasoning_tokens"@, max)
            } else {
                None
            }
        },
    };
    match (
        fields::number_of(t, "prompt_tokens"@, max),
        fields::number_of(t, "completion_tokens"@, max),
        cached,
        reasoning,
        fields::maybe_number(t, "prompt_cache_miss_tokens"@, max),
    ) {
        (Some(p), Some(c), Some(cached), Some(r), Some(m)) => Some(
            OpenAiUsage {
                prompt_tokens: p as u32,
                completion_tokens: c as u32,
                cached_tokens: opt_count(cached),
                reasoning_tokens: opt_count(r),
                prompt_cache_miss_tokens: opt_count(m),
            },
        ),
        _ => None,
    }
}

/// The members of the news of a choice.
pub open spec fn delta_members() -> Seq<Seq<char>> {
    seq!["content"@, "reasoning_content"@, "tool_calls"@, "refusal"@]
}

/// The members of a choice.
pub open spec fn choice_members() -> Seq<Seq<char>> {
    seq!["delta"@, "finish_reason"@]
}

/// The choice that a JSON object describes.
pub open spec fn choice_of(t: Tree) -> Option<Choice> {
    let t = fields::record(t, choice_members(), 2);
    match t.get("delta"@) {
        Some(n) => {
            let d = fields::record(n, delta_members(), 4);
            if !(d is Obj) {
                None
            } else {
                match (
                    fields::maybe_text(t, "finish_reason"@),
                    fields::maybe_text(d, "content"@),
                    fields::maybe_text(d, "reasoning_content"@),
                    list_or_null(d, "tool_calls"@),
                    fields::maybe_text(d, "refusal"@),
                ) {
                    (Some(finish), Some(content), Some(reasoning), Some(calls), Some(refusal)) =>
                        match stream_events::all_tool_parts(calls, false) {
                        Some(tools) => Some(
                            Choice { content, reasoning, tools, refusal, finish },
                        ),
                        None => None,
                    },
                    _ => None,
                }
            }
        },
        None => None,
    }
}

/// Every item of a list describes a choice.
pub open spec fn all_choices(ts: Seq<Tree>) -> bool {
    forall|i: int| 0 <= i < ts.len() ==> choice_of(#[trigger] ts[i]) is Some
}

/// The members of an event.
pub open spec fn event_members() -> Seq<Seq<char>> {
    seq!["id"@, "choices"@, "usage"@]
}

/// The event that a JSON object describes.
pub open spec fn event_of(t: Tree) -> Option<Event> {
    let t = fields::record(t, event_members(), 3);
    match (fields::text_of(t, "id"@), fields::list_of(t, "choices"@)) {
        (Some(id), Some(choices)) => if !all_choices(choices) {
            None
        } else {
            let choice = if choices.len() > 0 {
                choice_of(choices[0])
            } else {
                None
            };
            match fields::maybe_member(t, "usage"@) {
                None => Some(Event { id, choice, usage: None }),
                Some(u) => match usage_of(u) {
                    Some(usage) => Some(Event { id, choice, usage: Some(usage) }),
                    None => None,
                },
            }
        },
        _ => None,
    }
}

/// Reads the number of cached tokens of the details of input tokens.
pub fn read_cached(j: &Json) -> (r: Option<u32>)
    ensures
        ({
            let n = fields::number_of(
                fields::record(j@, prompt_details_members(), 1),
                "cached_tokens"@,
                u32::MAX as int,
            );
            &&& r matches Some(k) ==> n == Some(k as int)
            &&& r is None ==> n is None
        }),
{
    let names: [&str; 1] = ["cached_tokens"];
    assert(fields::names_of(names@) =~= prompt_details_members());
    let listed = fields::read_listed(j, &names, 1);
    let o = match &listed {
        Some(r) => r,
        None => j,
    };
    match fields::read_number(o, "cached_tokens", u32::MAX as u64) {
        Some(n) => Some(n as u32),
        None => None,
    }
}

/// Reads token counts.
pub fn read_usage(j: &Json) -> (r: Option<OpenAiUsage>)
    ensures
        r == usage_of(j@),
{
    let names: [&str; 5] = [
        "prompt_tokens",
        "completion_tokens",
        "prompt_tokens_details",
        "completion_tokens_details",
        "prompt_cache_miss_tokens",
    ];
    assert(fields::names_of(names@) =~= usage_members());
    let listed = fields::read_listed(j, &names, 5);
    let o = match &listed {
        Some(r) => r,
        None => j,
    };
    let max: u64 = u32::MAX as u64;
    let prompt_tokens: u32 = match fields::read_number(o, "prompt_tokens", max) {
        Some(n) => n as u32,
        None => return None,
    };
    let completion_tokens: u32 = match fields::read_number(o, "completion_tokens", max) {
        Some(n) => n as u32,
        None => return None,
    };
    let cached_tokens: Option<u32> = match fields::read_member(o, "prompt_tokens_details") {
        None => None,
        Some(d) => match read_cached(d) {
            Some(n) => Some(n),
            None => return None,
        },
    };
    let reasoning_tokens: Option<u32> = match fields::read_member(o, "completion_tokens_details") {
        None => None,
        Some(d) => {
            let detail_names: [&str; 1] = ["reasoning_tokens"];
            assert(fields::names_of(detail_names@) =~= completion_details_members());
            let details = fields::read_listed(d, &detail_names, 1);
            let r = match &details {
                Some(x) => x,
                None => d,
            };
            if r.as_object().is_none() {
                return None;
            }
            match fields::read_maybe_number(r, "reasoning_tokens", max) {
                Some(Some(n)) => Some(n as u32),
                Some(None) => None,
                None => return None,
            }
        },
    };
    let prompt_cache_miss_tokens: Option<u32> = match fields::read_maybe_number(
        o,
        "prompt_cache_miss_tokens",
        max,
    ) {
        Some(Some(n)) => Some(n as u32),
        Some(None) => None,
        None => return None,
    };
    Some(
        OpenAiUsage {
            prompt_tokens,
            completion_tokens,
            cached_tokens,
            reasoning_tokens,
            prompt_cache_miss_tokens,
        },
    )
}

fn read_choice(j: &Json) -> (r: Option<OpenAiChoice>)
    ensures
        r matches Some(c) ==> choice_of(j@) == Some(c@),
        r is None ==> choice_of(j@) is None,
{
    let names: [&str; 2] = ["delta", "finish_reason"];
    assert(fields::names_of(names@) =~= choice_members());
    let listed = fields::read_listed(j, &names, 2);
    let o = match &listed {
        Some(r) => r,
        None => j,
    };
    let n = match o.get("delta") {
        Some(d) => d,
        None => return None,
    };
    let delta_names: [&str; 4] = ["content", "reasoning_content", "tool_calls", "refusal"];
    assert(fields::names_of(delta_names@) =~= delta_members());
    let news = fields::read_listed(n, &delta_names, 4);
    let d = match &news {
        Some(r) => r,
        None => n,
    };
    if d.as_object().is_none() {
        return None;
    }
    let finish_reason = match fields::read_maybe_text(o, "finish_reason") {
        Some(f) => f,
        None => return None,
    };
    let content = match fields::read_maybe_text(d, "content") {
        Some(c) => c,
        None => return None,
    };
    let reasoning_content = match fields::read_maybe_text(d, "reasoning_content") {
        Some(c) => c,
        None => return None,
    };
    let refusal = match fields::read_maybe_text(d, "refusal") {
        Some(c) => c,
        None => return None,
    };
    let none: Vec<Json> = Vec::new();
    assert(json::trees(none@) =~= Seq::empty());
    let calls = match d.get("tool_calls") {
        None => &none,
        Some(Json::Null) => &none,
        Some(v) => match v.as_array() {
            Some(a) => a,
            None => return None,
        },
    };
    let tool_calls = match stream_events::read_tool_deltas(calls, false) {
        Some(t) => t,
        None => return None,
    };
    Some(OpenAiChoice { content, reasoning_content, tool_calls, refusal, finish_reason })
}

/// Reads an event of a streamed response.
pub fn read_openai_event(j: &Json) -> (r: Option<OpenAiStreamChunk>)
    ensures
        r matches Some(e) ==> event_of(j@) == Some(e@),
        r is None ==> event_of(j@) is None,
{
    let names: [&str; 3] = ["id", "choices", "usage"];
    assert(fields::names_of(names@) =~= event_members());
    let listed = fields::read_listed(j, &names, 3);
    let o = match &listed {
        Some(r) => r,
        None => j,
    };
    let id = match fields::read_text(o, "id") {
        Some(t) => t,
        None => return None,
    };
    let choices = match fields::read_list(o, "choices") {
        Some(v) => v,
        None => return None,
    };
    let ghost ts = json::trees(choices@);
    let mut choice: Option<OpenAiChoice> = None;
    let mut i: usize = choices.len();
    while i > 0
        invariant
            i <= choices@.len(),
            ts == json::trees(choices@),
            o@ == fields::record(j@, event_members(), 3),
            fields::list_of(o@, "choices"@) == Some(ts),
            forall|k: int| i <= k < ts.len() ==> choice_of(#[trigger] ts[k]) is Some,
            i < ts.len() ==> choice is Some && choice_of(ts[i as int]) == Some((choice->0)@),
            i == ts.len() ==> choice is None,
        decreases i,
    {
        i = i - 1;
        assert(ts[i as int] == choices@[i as int]@);
        match read_choice(&choices[i]) {
            Some(c) => {
                choice = Some(c);
            },
            None => {
                return None;
            },
        }
    }
    match fields::read_member(o, "usage") {
        None => Some(OpenAiStreamChunk { id, choice, usage: None }),
        Some(u) => match read_usage(u) {
            Some(usage) => Some(OpenAiStreamChunk { id, choice, usage: Some(usage) }),
            None => None,
        },
    }
}

// ---------------------------------------------------------------------------
// Token counts
// ---------------------------------------------------------------------------

/// A price that counts as zero where it is not known.
pub open spec fn price_or_zero(p: Option<u64>) -> int {
    match p {
        Some(n) => n as int,
        None => 0,
    }
}

/// What a response costs: each kind of token at its price, where the prices of input
/// and output are known.
pub open spec fn response_cost(u: OpenAiUsage, m: Option<CompatModel>) -> Option<u128> {
    match m {
        None => None,
        Some(c) => match (c.base.input_price, c.base.output_price) {
            (Some(i), Some(o)) => Some(
                (i * uncached(u) + o * u.completion_tokens + price_or_zero(
                    c.base.cache_reads_price,
                ) * count_or_zero(u.cached_tokens) + price_or_zero(c.base.cache_writes_price)
                    * count_or_zero(u.prompt_cache_miss_tokens)) as u128,
            ),
            _ => None,
        },
    }
}

/// A count that is zero where it is missing.
pub open spec fn count_or_zero(n: Option<u32>) -> int {
    match n {
        Some(k) => k as int,
        None => 0,
    }
}

/// The input tokens that were not read from a cache.
pub open spec fn uncached(u: OpenAiUsage) -> int {
    if u.prompt_tokens >= count_or_zero(u.cached_tokens) {
        u.prompt_tokens - count_or_zero(u.cached_tokens)
    } else {
        0
    }
}

/// The token counts of a response as a chunk shows them.
pub open spec fn usage_value(
    u: OpenAiUsage,
    id: Option<Seq<char>>,
    stop: Option<Seq<char>>,
    m: Option<CompatModel>,
) -> Usage {
    Usage {
        input_tokens: uncached(u) as u32,
        output_tokens: u.completion_tokens,
        cache_write_tokens: u.prompt_cache_miss_tokens,
        cache_read_tokens: Some(count_or_zero(u.cached_tokens) as u32),
        reasoning_tokens: u.reasoning_tokens,
        thoughts_token_count: None,
        total_cost: response_cost(u, m),
        stop_reason: stop,
        id,
    }
}

/// The token counts that stand in where a response gave none.
pub open spec fn no_usage(id: Option<Seq<char>>, stop: Option<Seq<char>>) -> Usage {
    Usage {
        input_tokens: 0,
        output_tokens: 0,
        cache_write_tokens: Some(0),
        cache_read_tokens: None,
        reasoning_tokens: None,
        thoughts_token_count: None,
        total_cost: None,
        stop_reason: stop,
        id,
    }
}

/// The value of an optional model description.
pub open spec fn opt_model(m: Option<OpenAiCompatibleModelInfo>) -> Option<CompatModel> {
    match m {
        Some(i) => Some(i@),
        None => None,
    }
}

/// Tokens of one kind at their price.
pub fn charge(price: u64, tokens: u32) -> (r: u128)
    ensures
        r == price * tokens,
        r <= 0x1_0000_0000_0000_0000_0000_0000,
{
    assert(price * tokens <= 0xffff_ffff_ffff_ffff * 0xffff_ffff) by (nonlinear_arith)
        requires
            0 <= price <= 0xffff_ffff_ffff_ffff,
            0 <= tokens <= 0xffff_ffff,
    ;
    price as u128 * tokens as u128
}

/// The token counts of a response as a chunk shows them.
pub fn openai_usage_chunk(
    u: &OpenAiUsage,
    id: Option<String>,
    stop_reason: Option<String>,
    model_info: &Option<OpenAiCompatibleModelInfo>,
) -> (r: ApiStreamUsageChunk)
    ensures
        r@ == usage_value(*u, text::opt(id), text::opt(stop_reason), opt_model(*model_info)),
{
    let cached: u32 = match u.cached_tokens {
        Some(n) => n,
        None => 0,
    };
    let written: u32 = match u.prompt_cache_miss_tokens {
        Some(n) => n,
        None => 0,
    };
    let fresh: u32 = u.prompt_tokens.saturating_sub(cached);
    let total_cost: Option<u128> = match model_info {
        None => None,
        Some(info) => match (info.base.input_price, info.base.output_price) {
            (Some(i), Some(o)) => {
                let reads: u64 = match info.base.cache_reads_price {
                    Some(p) => p,
                    None => 0,
                };
                let writes: u64 = match info.base.cache_writes_price {
                    Some(p) => p,
                    None => 0,
                };
                let a: u128 = charge(i, fresh);
                let b: u128 = charge(o, u.completion_tokens);
                let c: u128 = charge(reads, cached);
                let d: u128 = charge(writes, written);
                Some(a + b + c + d)
            },
            _ => None,
        },
    };
    ApiStreamUsageChunk {
        input_tokens: fresh,
        output_tokens: u.completion_tokens,
        cache_write_tokens: u.prompt_cache_miss_tokens,
        cache_read_tokens: Some(cached),
        reasoning_tokens: u.reasoning_tokens,
        thoughts_token_count: None,
        total_cost,
        stop_reason,
        id,
    }
}

/// The token counts that stand in where a response gave none.
pub fn make_no_usage(id: Option<String>, stop_reason: Option<String>) -> (r: ApiStreamUsageChunk)
    ensures
        r@ == no_usage(text::opt(id), text::opt(stop_reason)),
{
    ApiStreamUsageChunk {
        input_tokens: 0,
        output_tokens: 0,
        cache_write_tokens: Some(0),
        cache_read_tokens: None,
        reasoning_tokens: None,
        thoughts_token_count: None,
        total_cost: None,
        stop_reason,
        id,
    }
}

// ---------------------------------------------------------------------------
// What an event does
// ---------------------------------------------------------------------------

/// The state of a streamed response.
#[derive(Debug)]
pub struct OpenAiStreamDeltaState {
    pub emitted_reasoning: String,
    pub calls: CallTable,
    pub last_stop_reason: Option<String>,
    pub usage_sent: bool,
}

/// The mathematical value of the state of a streamed response.
pub struct Oai {
    pub emitted: Seq<char>,
    pub calls: Seq<Call>,
    pub last_stop: Option<Seq<char>>,
    pub usage_sent: bool,
}

impl View for OpenAiStreamDeltaState {
    type V = Oai;

    open spec fn view(&self) -> Oai {
        Oai {
            emitted: self.emitted_reasoning@,
            calls: self.calls@,
            last_stop: text::opt(self.last_stop_reason),
            usage_sent: self.usage_sent,
        }
    }
}

/// The state before the first event.
pub open spec fn fresh_state() -> Oai {
    Oai { emitted: Seq::empty(), calls: Seq::empty(), last_stop: None, usage_sent: false }
}

impl Default for OpenAiStreamDeltaState {
    fn default() -> (r: Self)
        ensures
            r@ == fresh_state(),
            calls::in_order(r@.calls),
    {
        OpenAiStreamDeltaState {
            emitted_reasoning: String::new(),
            calls: CallTable::new(),
            last_stop_reason: None,
            usage_sent: false,
        }
    }
}

/// The calls after a fragment. An empty id, name or text adds nothing.
pub open spec fn with_part(table: Seq<Call>, p: ToolPart) -> Seq<Call> {
    let a = match p.id {
        Some(id) => if id.len() > 0 {
            calls::with_call(table, Call { id, ..calls::call_at(table, p.index) })
        } else {
            table
        },
        None => table,
    };
    match p.function {
        None => a,
        Some(f) => {
            let b = match f.name {
                Some(n) => if n.len() > 0 {
                    calls::with_call(a, Call { name: plain_name(n), ..calls::call_at(a, p.index) })
                } else {
                    a
                },
                None => a,
            };
            match f.arguments {
                Some(t) => if t.len() > 0 {
                    let c = calls::call_at(b, p.index);
                    calls::with_call(
                        b,
                        Call { arguments: tool_args::appended(c.arguments, t), ..c },
                    )
                } else {
                    b
                },
                None => b,
            }
        },
    }
}

/// A call that can be announced: it has an id and a safe name, and was not announced
/// yet.
pub open spec fn announces(table: Seq<Call>, index: nat) -> bool {
    let c = calls::call_at(table, index);
    calls::known(table, index) && !c.started && c.id.len() > 0 && is_safe_name(c.name)
}

/// The state of a response and the chunks that were emitted so far.
pub struct Progress {
    pub state: Oai,
    pub chunks: Seq<Chunk>,
}

impl Progress {
    /// Takes a fragment of a tool call in, and announces the call as soon as that can
    /// be done, if the receiver takes the announcement: it takes `room` chunks.
    pub open spec fn tool(self, p: ToolPart, room: usize) -> Progress {
        if calls::call_at(self.state.calls, p.index).completed {
            self
        } else {
            let table = with_part(self.state.calls, p);
            if self.chunks.len() < room && announces(table, p.index) {
                let c = calls::call_at(table, p.index);
                Progress {
                    state: Oai {
                        calls: calls::with_call(table, Call { started: true, ..c }),
                        ..self.state
                    },
                    chunks: self.chunks.push(Chunk::Started { call_id: c.id, name: c.name }),
                }
            } else {
                Progress { state: Oai { calls: table, ..self.state }, ..self }
            }
        }
    }

    /// Takes a list of fragments in.
    pub open spec fn tools(self, parts: Seq<ToolPart>, room: usize) -> Progress
        decreases parts.len(),
    {
        if parts.len() == 0 {
            self
        } else {
            self.tools(parts.drop_last(), room).tool(parts.last(), room)
        }
    }

    /// Shows a text, if it is not empty.
    pub open spec fn text(self, t: Option<Seq<char>>, id: Seq<char>) -> Progress {
        match t {
            Some(s) => if s.len() > 0 {
                Progress { chunks: self.chunks.push(types::text_chunk(s, Some(id))), ..self }
            } else {
                self
            },
            None => self,
        }
    }

    /// Shows what is new in a reasoning delta.
    pub open spec fn reason(self, t: Option<Seq<char>>, id: Seq<char>) -> Progress {
        match t {
            Some(d) => {
                let new = reasoning::fresh(self.state.emitted, d);
                if new.len() > 0 {
                    Progress {
                        state: Oai { emitted: self.state.emitted + new, ..self.state },
                        chunks: self.chunks.push(types::reasoning_chunk(new, Some(id))),
                    }
                } else {
                    self
                }
            },
            None => self,
        }
    }

    /// Reports a refusal.
    pub open spec fn refuse(self, t: Option<Seq<char>>) -> Progress {
        match t {
            Some(s) => if s.len() > 0 {
                Progress {
                    chunks: self.chunks.push(Chunk::Error("OpenAI model refused: "@ + s)),
                    ..self
                }
            } else {
                self
            },
            None => self,
        }
    }

    /// Hands the ready calls out.
    pub open spec fn hand_out(self, id: Option<Seq<char>>) -> Progress {
        Progress {
            state: Oai { calls: calls::handed_out(self.state.calls), ..self.state },
            chunks: self.chunks + calls::ready_chunks(self.state.calls, id),
        }
    }

    /// Takes the reason for the end of a choice in: where the model ended with tool
    /// calls, the ready calls are handed out.
    pub open spec fn end(self, finish: Option<Seq<char>>, id: Seq<char>) -> Progress {
        match finish {
            None => self,
            Some(f) => {
                let p = Progress { state: Oai { last_stop: finish, ..self.state }, ..self };
                if f == "tool_calls"@ {
                    p.hand_out(Some(id))
                } else {
                    p
                }
            },
        }
    }

    /// Takes a choice in.
    pub open spec fn choice(self, c: Choice, id: Seq<char>, room: usize) -> Progress {
        self.text(c.content, id).reason(c.reasoning, id).refuse(c.refusal).tools(
            c.tools,
            room,
        ).end(c.finish, id)
    }

    /// Takes an event in: its first choice, and its token counts.
    pub open spec fn event(self, e: Event, m: Option<CompatModel>, room: usize) -> Progress {
        let p = match e.choice {
            Some(c) => self.choice(c, e.id, room),
            None => self,
        };
        match e.usage {
            None => p,
            Some(u) => Progress {
                state: Oai { usage_sent: true, ..p.state },
                chunks: p.chunks.push(
                    Chunk::Usage(usage_value(u, Some(e.id), p.state.last_stop, m)),
                ),
            },
        }
    }

    /// Takes a line in. A line that is no event is passed over.
    pub open spec fn line(self, line: Seq<char>, m: Option<CompatModel>, room: usize) -> Progress {
        let l = text::trimmed(line);
        if l.len() == 0 || l == "data: [DONE]"@ {
            self
        } else {
            match stream_events::payload(l) {
                None => self,
                Some(d) => match json::parsed(d) {
                    None => self,
                    Some(t) => match event_of(t) {
                        None => self,
                        Some(e) => self.event(e, m, room),
                    },
                },
            }
        }
    }

    /// Takes lines in, in order.
    pub open spec fn lines(
        self,
        lines: Seq<Seq<char>>,
        m: Option<CompatModel>,
        room: usize,
    ) -> Progress
        decreases lines.len(),
    {
        if lines.len() == 0 {
            self
        } else {
            self.lines(lines.drop_last(), m, room).line(lines.last(), m, room)
        }
    }

    /// Takes bytes in that a buffer cut into lines.
    pub open spec fn bytes(
        self,
        buffer: LineState,
        bytes: Seq<u8>,
        m: Option<CompatModel>,
        room: usize,
    ) -> Progress {
        let (b, raw) = buffer.push(bytes);
        let p = self.lines(sse::decoded(raw), m, room);
        if b.exceeded {
            Progress {
                chunks: p.chunks.push(Chunk::Error(sse::overflow_text(b.max))),
                ..p
            }
        } else {
            p
        }
    }

    /// The end of a response: the line that is left, the calls that were never handed
    /// out, unless a filter ended the response, and token counts if there were none.
    pub open spec fn finish(self, buffer: LineState, m: Option<CompatModel>, room: usize) -> Progress {
        let a = if buffer.pending.len() > 0 {
            self.line(sse::lossy(buffer.pending), m, room)
        } else {
            self
        };
        let b = if a.state.last_stop == Some("content_filter"@) {
            a
        } else {
            a.hand_out(None)
        };
        if b.state.usage_sent {
            b
        } else {
            Progress {
                chunks: b.chunks.push(Chunk::Usage(no_usage(None, b.state.last_stop))),
                ..b
            }
        }
    }
}

/// The state and the chunks of a response so far.
pub open spec fn progress(s: Oai, out: Seq<ApiStreamChunk>) -> Progress {
    Progress { state: s, chunks: types::chunks(out) }
}

/// A fragment keeps the table in order and within the size limit.
pub proof fn law_part_keeps_order(table: Seq<Call>, p: ToolPart)
    requires
        calls::in_order(table),
    ensures
        calls::in_order(with_part(table, p)),
{
    calls::lemma_rank(table, p.index);
    let a = match p.id {
        Some(id) => if id.len() > 0 {
            let n = Call { id, ..calls::call_at(table, p.index) };
            calls::law_with_call(table, n);
            calls::with_call(table, n)
        } else {
            table
        },
        None => table,
    };
    calls::lemma_rank(a, p.index);
    if let Some(f) = p.function {
        let b = match f.name {
            Some(n) => if n.len() > 0 {
                let c = Call { name: plain_name(n), ..calls::call_at(a, p.index) };
                calls::law_with_call(a, c);
                calls::with_call(a, c)
            } else {
                a
            },
            None => a,
        };
        calls::lemma_rank(b, p.index);
        if let Some(t) = f.arguments {
            let c = calls::call_at(b, p.index);
            tool_args::law_arguments_stay_within_limit(c.arguments, t);
            calls::law_with_call(
                b,
                Call { arguments: tool_args::appended(c.arguments, t), ..c },
            );
        }
    }
}

/// A call is announced once: after it was announced, no fragment announces it again.
pub proof fn law_announced_once(p: Progress, part: ToolPart, room: usize)
    requires
        calls::in_order(p.state.calls),
        p.chunks.len() < room,
        !calls::call_at(p.state.calls, part.index).completed,
        announces(with_part(p.state.calls, part), part.index),
    ensures
        p.tool(part, room).chunks.len() == p.chunks.len() + 1,
        calls::call_at(p.tool(part, room).state.calls, part.index).started,
        !announces(p.tool(part, room).state.calls, part.index),
{
    let table = with_part(p.state.calls, part);
    law_part_keeps_order(p.state.calls, part);
    calls::lemma_rank(table, part.index);
    let c = calls::call_at(table, part.index);
    calls::law_with_call(table, Call { started: true, ..c });
}

/// Takes a fragment into the table of calls.
fn add_part(table: &mut CallTable, p: &ToolDelta)
    ensures
        final(table)@ == with_part(old(table)@, p@),
{
    if let Some(id) = &p.id {
        if !id.as_str().is_empty() {
            let mut c = table.copy_of(p.index);
            c.id = id.clone();
            table.put(c);
        }
    }
    if let Some(f) = &p.function {
        if let Some(n) = &f.name {
            if !n.as_str().is_empty() {
                let mut c = table.copy_of(p.index);
                c.name = make_plain_name(n.as_str());
                table.put(c);
            }
        }
        if let Some(a) = &f.arguments {
            if !a.as_str().is_empty() {
                let mut c = table.copy_of(p.index);
                tool_args::append_args(&mut c.arguments, a.as_str());
                table.put(c);
            }
        }
    }
}

fn take_tool(
    s: &mut OpenAiStreamDeltaState,
    d: &ToolDelta,
    room: usize,
    out: &mut Vec<ApiStreamChunk>,
)
    ensures
        progress(final(s)@, final(out)@) == progress(old(s)@, old(out)@).tool(d@, room),
{
    let completed = match s.calls.get(d.index) {
        Some(call) => call.completed,
        None => false,
    };
    if completed {
        return;
    }
    add_part(&mut s.calls, d);
    let announced = match s.calls.get(d.index) {
        Some(c) => {
            if out.len() < room && !c.started && !c.id.as_str().is_empty() && is_safe_tool_name(
                c.name.as_str(),
            ) {
                types::emit(
                    out,
                    ApiStreamChunk::ToolCallStarted {
                        call_id: c.id.clone(),
                        name: c.name.clone(),
                    },
                );
                true
            } else {
                false
            }
        },
        None => false,
    };
    if announced {
        let mut c = s.calls.copy_of(d.index);
        c.started = true;
        s.calls.put(c);
    }
}

/// Takes an event in.
pub fn process_openai_event(
    s: &mut OpenAiStreamDeltaState,
    event: &OpenAiStreamChunk,
    model_info: &Option<OpenAiCompatibleModelInfo>,
    room: usize,
    out: &mut Vec<ApiStreamChunk>,
)
    ensures
        progress(final(s)@, final(out)@) == progress(old(s)@, old(out)@).event(
            event@,
            opt_model(*model_info),
            room,
        ),
{
    let id = Some(event.id.clone());
    if let Some(c) = &event.choice {
        if let Some(t) = &c.content {
            if !t.as_str().is_empty() {
                types::emit_text(out, t.as_str(), &id);
            }
        }
        if let Some(t) = &c.reasoning_content {
            if let Some(new) = reasoning::normalize_reasoning_delta(
                &mut s.emitted_reasoning,
                t.clone(),
            ) {
                types::emit_reasoning(out, new.as_str(), &id);
            }
        }
        if let Some(t) = &c.refusal {
            if !t.as_str().is_empty() {
                let mut m = "OpenAI model refused: ".to_owned();
                text::push_text(&mut m, t.as_str());
                types::emit_error(out, m.as_str());
            }
        }
        let ghost d = progress(s@, out@);
        assert(d == progress(old(s)@, old(out)@).text(c@.content, event.id@).reason(
            c@.reasoning,
            event.id@,
        ).refuse(c@.refusal));
        let ghost parts = stream_events::tool_parts(c.tool_calls@);
        let mut k: usize = 0;
        assert(parts.take(0) =~= Seq::empty());
        while k < c.tool_calls.len()
            invariant
                k <= c.tool_calls@.len(),
                parts == stream_events::tool_parts(c.tool_calls@),
                progress(s@, out@) == d.tools(parts.take(k as int), room),
            decreases c.tool_calls@.len() - k,
        {
            proof {
                assert(parts.take(k + 1).drop_last() =~= parts.take(k as int));
                assert(parts.take(k + 1).last() == c.tool_calls@[k as int]@);
            }
            take_tool(s, &c.tool_calls[k], room, out);
            k = k + 1;
        }
        assert(parts.take(k as int) =~= parts);
        if let Some(f) = &c.finish_reason {
            s.last_stop_reason = Some(f.clone());
            if text::same(f.as_str(), "tool_calls") {
                s.calls.emit_ready(&id, out);
            }
        }
    }
    if let Some(u) = &event.usage {
        s.usage_sent = true;
        let chunk = openai_usage_chunk(
            u,
            Some(event.id.clone()),
            text::copy_opt(&s.last_stop_reason),
            model_info,
        );
        types::emit(out, ApiStreamChunk::Usage(chunk));
    }
}

/// Takes a line of the response in. `room` is the number of chunks that the receiver
/// takes: a tool call is announced where the announcement is one of them.
pub fn process_openai_sse_line(
    line: &str,
    s: &mut OpenAiStreamDeltaState,
    model_info: &Option<OpenAiCompatibleModelInfo>,
    room: usize,
    out: &mut Vec<ApiStreamChunk>,
)
    ensures
        progress(final(s)@, final(out)@) == progress(old(s)@, old(out)@).line(
            line@,
            opt_model(*model_info),
            room,
        ),
{
    let l = text::trim(line);
    if l.as_str().is_empty() || text::same(l.as_str(), "data: [DONE]") {
        return;
    }
    if let Some(d) = stream_events::line_payload(l.as_str()) {
        if let Some(j) = json::parse(d.as_str()) {
            if let Some(e) = read_openai_event(&j) {
                process_openai_event(s, &e, model_info, room, out);
            }
        }
    }
}

/// Takes bytes of the response in: every line that they complete, and the report of a
/// line that grew too long.
pub fn parse_openai_sse_to_chunks(
    chunk: &[u8],
    buffer: &mut SseLineBuffer,
    s: &mut OpenAiStreamDeltaState,
    model_info: &Option<OpenAiCompatibleModelInfo>,
    room: usize,
    out: &mut Vec<ApiStreamChunk>,
)
    ensures
        final(buffer)@ == sse::buffer_after(old(buffer)@, chunk@),
        progress(final(s)@, final(out)@) == progress(old(s)@, old(out)@).bytes(
            old(buffer)@,
            chunk@,
            opt_model(*model_info),
            room,
        ),
{
    let lines = buffer.push_chunk(chunk);
    let ghost start = progress(s@, out@);
    let ghost ts = text::texts(lines@);
    let mut i: usize = 0;
    assert(ts.take(0) =~= Seq::empty());
    while i < lines.len()
        invariant
            i <= lines@.len(),
            ts == text::texts(lines@),
            progress(s@, out@) == start.lines(ts.take(i as int), opt_model(*model_info), room),
        decreases lines@.len() - i,
    {
        proof {
            assert(ts.take(i + 1).drop_last() =~= ts.take(i as int));
            assert(ts.take(i + 1).last() == lines@[i as int]@);
        }
        process_openai_sse_line(lines[i].as_str(), s, model_info, room, out);
        i = i + 1;
    }
    assert(ts.take(i as int) =~= ts);
    if let Some(e) = buffer.take_error() {
        types::emit_error(out, e.as_str());
    }
}

/// Ends the response.
pub fn finish_openai_sse_to_chunks(
    buffer: &mut SseLineBuffer,
    s: &mut OpenAiStreamDeltaState,
    model_info: &Option<OpenAiCompatibleModelInfo>,
    room: usize,
    out: &mut Vec<ApiStreamChunk>,
)
    ensures
        final(buffer)@ == sse::emptied(old(buffer)@),
        progress(final(s)@, final(out)@) == progress(old(s)@, old(out)@).finish(
            old(buffer)@,
            opt_model(*model_info),
            room,
        ),
{
    if let Some(line) = buffer.finish() {
        process_openai_sse_line(line.as_str(), s, model_info, room, out);
    }
    let filtered = match &s.last_stop_reason {
        Some(r) => text::same(r.as_str(), "content_filter"),
        None => false,
    };
    if !filtered {
        s.calls.emit_ready(&None, out);
    }
    if !s.usage_sent {
        let chunk = make_no_usage(None, text::copy_opt(&s.last_stop_reason));
        types::emit(out, ApiStreamChunk::Usage(chunk));
    }
}

} // verus!
