//! A provider that answers from a script.

use crate::json;
use crate::json::{Json, Tree};
use crate::providers::chat_format;
use crate::providers::errors::{Failure, ProviderError};
use crate::providers::types;
use crate::providers::types::{
    ApiStreamChunk, ApiStreamReasoningChunk, ApiStreamTextChunk, ApiStreamToolCall,
    ApiStreamToolCallFunction, ApiStreamToolCallsChunk, ApiStreamUsageChunk, Chunk, Model,
    ModelInfo, ProviderModel, Usage,
};
use crate::text;
use vstd::prelude::*;

verus! {

/// A mock provider for testing that returns predefined responses.
#[derive(Debug)]
pub struct MockProvider {
    pub responses: Vec<MockResponse>,
    pub response_index: usize,
    pub repeat_last: bool,
}

/// An answer of the script.
#[derive(Debug)]
pub enum MockResponse {
    Text(String),
    ToolCalls(Vec<MockToolCall>),
    Stream(Vec<MockStreamEvent>),
    Error(String),
}

/// A step of an answer.
#[derive(Debug)]
pub enum MockStreamEvent {
    Chunk(ApiStreamChunk),
    /// A pause, in nanoseconds.
    Delay(u64),
}

/// A tool call of the script.
#[derive(Debug)]
pub struct MockToolCall {
    pub call_id: String,
    pub name: String,
    pub arguments: Json,
}

/// The mathematical value of a step.
pub enum Step {
    Chunk(Chunk),
    Delay(u64),
}

/// The mathematical value of a tool call: its identifier, name and arguments.
pub struct Call {
    pub id: Seq<char>,
    pub name: Seq<char>,
    pub arguments: Tree,
}

/// The mathematical value of an answer.
pub enum Response {
    Text(Seq<char>),
    ToolCalls(Seq<Call>),
    Stream(Seq<Step>),
    Error(Seq<char>),
}

impl View for MockStreamEvent {
    type V = Step;

    open spec fn view(&self) -> Step {
        match *self {
            MockStreamEvent::Chunk(c) => Step::Chunk(c@),
            MockStreamEvent::Delay(n) => Step::Delay(n),
        }
    }
}

/// The values of a list of steps.
pub open spec fn steps(v: Seq<MockStreamEvent>) -> Seq<Step> {
    v.map_values(|e: MockStreamEvent| e@)
}

impl View for MockToolCall {
    type V = Call;

    open spec fn view(&self) -> Call {
        Call { id: self.call_id@, name: self.name@, arguments: self.arguments@ }
    }
}

/// The values of a list of tool calls.
pub open spec fn call_values(v: Seq<MockToolCall>) -> Seq<Call> {
    v.map_values(|c: MockToolCall| c@)
}

impl View for MockResponse {
    type V = Response;

    open spec fn view(&self) -> Response {
        match *self {
            MockResponse::Text(t) => Response::Text(t@),
            MockResponse::ToolCalls(v) => Response::ToolCalls(call_values(v@)),
            MockResponse::Stream(v) => Response::Stream(steps(v@)),
            MockResponse::Error(m) => Response::Error(m@),
        }
    }
}

/// The values of a script.
pub open spec fn script(v: Seq<MockResponse>) -> Seq<Response> {
    v.map_values(|r: MockResponse| r@)
}

/// The answer to the request with a number, counted from zero. Where the script has
/// run out, it is the last one again if that is asked for.
pub open spec fn answer(s: Seq<Response>, n: nat, repeat: bool) -> Option<Response> {
    if n < s.len() {
        Some(s[n as int])
    } else if repeat && s.len() > 0 {
        Some(s.last())
    } else {
        None
    }
}

/// The token counts of every scripted answer.
pub open spec fn mock_usage() -> Usage {
    Usage {
        input_tokens: 10,
        output_tokens: 20,
        cache_write_tokens: None,
        cache_read_tokens: None,
        reasoning_tokens: None,
        thoughts_token_count: None,
        total_cost: None,
        stop_reason: None,
        id: None,
    }
}

/// The chunk of a scripted tool call.
pub open spec fn call_chunk(c: Call) -> Chunk {
    Chunk::ToolCall {
        call_id: Some(c.id),
        function_id: None,
        name: Some(c.name),
        arguments: Some(json::printed(c.arguments)),
        call_signature: None,
        id: None,
        signature: None,
    }
}

/// What an answer plays: a text or the first tool call with token counts, the steps of
/// a stream, an error, or nothing.
pub open spec fn played(r: Option<Response>) -> Result<Seq<Step>, Failure> {
    match r {
        Some(Response::Text(t)) => Ok(
            seq![Step::Chunk(types::text_chunk(t, None)), Step::Chunk(Chunk::Usage(mock_usage()))],
        ),
        Some(Response::ToolCalls(v)) => if v.len() > 0 {
            Ok(
                seq![
                    Step::Chunk(call_chunk(v[0])),
                    Step::Chunk(Chunk::Usage(mock_usage())),
                ],
            )
        } else {
            Ok(Seq::empty())
        },
        Some(Response::Stream(v)) => Ok(v),
        Some(Response::Error(m)) => Err(Failure::Api(m)),
        None => Ok(Seq::empty()),
    }
}

/// A script that repeats its last answer never runs out, and one that does not plays
/// nothing once it has run out.
pub proof fn law_script_end(s: Seq<Response>, n: nat)
    requires
        s.len() > 0,
        n >= s.len(),
    ensures
        answer(s, n, true) == answer(s, (s.len() - 1) as nat, false),
        played(answer(s, n, false)) == Ok::<Seq<Step>, Failure>(Seq::empty()),
{
}

fn make_usage() -> (r: ApiStreamChunk)
    ensures
        r@ == Chunk::Usage(mock_usage()),
{
    ApiStreamChunk::Usage(
        ApiStreamUsageChunk {
            input_tokens: 10,
            output_tokens: 20,
            cache_write_tokens: None,
            cache_read_tokens: None,
            reasoning_tokens: None,
            thoughts_token_count: None,
            total_cost: None,
            stop_reason: None,
            id: None,
        },
    )
}

fn make_text(t: &str) -> (r: ApiStreamChunk)
    ensures
        r@ == types::text_chunk(t@, None),
{
    ApiStreamChunk::Text(ApiStreamTextChunk { text: t.to_owned(), id: None, signature: None })
}

fn make_call(c: &MockToolCall) -> (r: ApiStreamChunk)
    ensures
        r@ == call_chunk(c@),
{
    ApiStreamChunk::ToolCalls(
        ApiStreamToolCallsChunk {
            tool_call: ApiStreamToolCall {
                call_id: Some(c.call_id.clone()),
                function: ApiStreamToolCallFunction {
                    id: None,
                    name: Some(c.name.clone()),
                    arguments: Some(json::print(&c.arguments)),
                },
                signature: None,
            },
            id: None,
            signature: None,
        },
    )
}

/// A chunk with the same value.
pub fn copy_chunk(c: &ApiStreamChunk) -> (r: ApiStreamChunk)
    ensures
        r@ == c@,
{
    match c {
        ApiStreamChunk::Text(t) => ApiStreamChunk::Text(
            ApiStreamTextChunk {
                text: t.text.clone(),
                id: text::copy_opt(&t.id),
                signature: text::copy_opt(&t.signature),
            },
        ),
        ApiStreamChunk::Reasoning(t) => ApiStreamChunk::Reasoning(
            ApiStreamReasoningChunk {
                reasoning: t.reasoning.clone(),
                details: match &t.details {
                    Some(d) => Some(d.copy()),
                    None => None,
                },
                signature: text::copy_opt(&t.signature),
                redacted_data: text::copy_opt(&t.redacted_data),
                id: text::copy_opt(&t.id),
            },
        ),
        ApiStreamChunk::ToolCallStarted { call_id, name } => ApiStreamChunk::ToolCallStarted {
            call_id: call_id.clone(),
            name: name.clone(),
        },
        ApiStreamChunk::ToolCalls(t) => ApiStreamChunk::ToolCalls(
            ApiStreamToolCallsChunk {
                tool_call: ApiStreamToolCall {
                    call_id: text::copy_opt(&t.tool_call.call_id),
                    function: ApiStreamToolCallFunction {
                        id: text::copy_opt(&t.tool_call.function.id),
                        name: text::copy_opt(&t.tool_call.function.name),
                        arguments: text::copy_opt(&t.tool_call.function.arguments),
                    },
                    signature: text::copy_opt(&t.tool_call.signature),
                },
                id: text::copy_opt(&t.id),
                signature: text::copy_opt(&t.signature),
            },
        ),
        ApiStreamChunk::Usage(u) => ApiStreamChunk::Usage(
            ApiStreamUsageChunk {
                input_tokens: u.input_tokens,
                output_tokens: u.output_tokens,
                cache_write_tokens: u.cache_write_tokens,
                cache_read_tokens: u.cache_read_tokens,
                reasoning_tokens: u.reasoning_tokens,
                thoughts_token_count: u.thoughts_token_count,
                total_cost: u.total_cost,
                stop_reason: text::copy_opt(&u.stop_reason),
                id: text::copy_opt(&u.id),
            },
        ),
        ApiStreamChunk::Error(m) => ApiStreamChunk::Error(m.clone()),
    }
}

fn copy_steps(v: &Vec<MockStreamEvent>) -> (r: Vec<MockStreamEvent>)
    ensures
        steps(r@) == steps(v@),
{
    let mut out: Vec<MockStreamEvent> = Vec::new();
    let ghost ss = steps(v@);
    let mut i: usize = 0;
    assert(steps(out@) =~= ss.take(0));
    while i < v.len()
        invariant
            i <= v@.len(),
            ss == steps(v@),
            steps(out@) == ss.take(i as int),
        decreases v@.len() - i,
    {
        let e = match &v[i] {
            MockStreamEvent::Chunk(c) => MockStreamEvent::Chunk(copy_chunk(c)),
            MockStreamEvent::Delay(n) => MockStreamEvent::Delay(*n),
        };
        assert(ss[i as int] == e@);
        let ghost before = out@;
        out.push(e);
        assert(steps(out@) =~= steps(before).push(e@));
        assert(steps(out@) =~= ss.take(i + 1));
        i = i + 1;
    }
    assert(ss.take(i as int) =~= ss);
    out
}

fn two_steps(a: ApiStreamChunk, b: ApiStreamChunk) -> (r: Vec<MockStreamEvent>)
    ensures
        steps(r@) == seq![Step::Chunk(a@), Step::Chunk(b@)],
{
    let mut v: Vec<MockStreamEvent> = Vec::new();
    let ghost x = a@;
    let ghost y = b@;
    v.push(MockStreamEvent::Chunk(a));
    v.push(MockStreamEvent::Chunk(b));
    assert(steps(v@) =~= seq![Step::Chunk(x), Step::Chunk(y)]);
    v
}

/// What an answer plays.
pub fn play(r: Option<&MockResponse>) -> (out: Result<Vec<MockStreamEvent>, ProviderError>)
    ensures
        ({
            let p = played(
                match r {
                    Some(x) => Some(x@),
                    None => None,
                },
            );
            &&& out matches Ok(v) ==> p == Ok::<Seq<Step>, Failure>(steps(v@))
            &&& out matches Err(e) ==> p == Err::<Seq<Step>, Failure>(e@)
        }),
{
    match r {
        Some(MockResponse::Text(t)) => Ok(two_steps(make_text(t.as_str()), make_usage())),
        Some(MockResponse::ToolCalls(calls)) => {
            if calls.len() > 0 {
                Ok(two_steps(make_call(&calls[0]), make_usage()))
            } else {
                let none: Vec<MockStreamEvent> = Vec::new();
                assert(steps(none@) =~= Seq::empty());
                Ok(none)
            }
        },
        Some(MockResponse::Stream(v)) => Ok(copy_steps(v)),
        Some(MockResponse::Error(m)) => Err(ProviderError::ApiError(m.clone())),
        None => {
            let none: Vec<MockStreamEvent> = Vec::new();
            assert(steps(none@) =~= Seq::empty());
            Ok(none)
        },
    }
}

/// A number with two digits at least.
pub open spec fn two_digits(n: nat) -> Seq<char> {
    if n < 10 {
        "0"@ + text::decimal(n)
    } else {
        text::decimal(n)
    }
}

/// A numbered line of the scroll scenario.
pub open spec fn scroll_line(n: nat, rest: Seq<char>) -> Seq<char> {
    "approval scroll line "@ + two_digits(n) + ": "@ + rest + "\n"@
}

/// The numbered lines after `from` up to `to`.
pub open spec fn scroll_text(from: nat, to: nat, rest: Seq<char>) -> Seq<char>
    decreases to,
{
    if to <= from {
        Seq::empty()
    } else {
        scroll_text(from, (to - 1) as nat, rest) + scroll_line(to, rest)
    }
}

/// The script of the scroll scenario: two pages of text with a pause after each, a
/// command that wants approval, then the end of the task.
pub open spec fn scroll_script() -> Seq<Response> {
    let command = Call {
        id: "approval-scroll-exec"@,
        name: "execute_command"@,
        arguments: json::empty_obj().put(
            "commands"@,
            Tree::Arr(seq![Tree::Str("touch /tmp/sned-approval-scroll-smoke"@)]),
        ),
    };
    let end = Call {
        id: "approval-scroll-complete"@,
        name: "attempt_completion"@,
        arguments: json::empty_obj().put(
            "result"@,
            Tree::Str("approval-scroll smoke test complete"@),
        ),
    };
    seq![
        Response::Stream(
            seq![
                Step::Chunk(
                    types::text_chunk(
                        scroll_text(0, 30, "this output fills the viewport"@),
                        None,
                    ),
                ),
                Step::Delay(250_000_000),
                Step::Chunk(
                    types::text_chunk(
                        scroll_text(30, 60, "keep scrolling through output"@),
                        None,
                    ),
                ),
                Step::Delay(250_000_000),
                Step::Chunk(call_chunk(command)),
                Step::Chunk(Chunk::Usage(mock_usage())),
            ],
        ),
        Response::ToolCalls(seq![end]),
    ]
}

fn make_scroll_text(from: u64, to: u64, rest: &str) -> (r: String)
    requires
        from <= to < u64::MAX,
    ensures
        r@ == scroll_text(from as nat, to as nat, rest@),
{
    let mut s = String::new();
    let mut n: u64 = from;
    while n < to
        invariant
            from <= n <= to < u64::MAX,
            s@ == scroll_text(from as nat, n as nat, rest@),
        decreases to - n,
    {
        n = n + 1;
        let ghost before = s@;
        text::push_text(&mut s, "approval scroll line ");
        if n < 10 {
            text::push_text(&mut s, "0");
        }
        let d = text::number_text(n);
        text::push_text(&mut s, d.as_str());
        text::push_text(&mut s, ": ");
        text::push_text(&mut s, rest);
        text::push_text(&mut s, "\n");
        assert(s@ =~= before + scroll_line(n as nat, rest@));
    }
    s
}

/// The description of the scripted model.
pub open spec fn mock_model() -> Model {
    Model {
        name: Some("Mock Model"@),
        max_tokens: Some(4096),
        context_window: Some(200_000),
        supports_images: Some(false),
        supports_reasoning: Some(false),
        description: Some("Mock model for testing"@),
        supports_tools: Some(true),
        ..types::blank_model()
    }
}

impl MockProvider {
    /// A provider that plays a script once.
    pub fn new(responses: Vec<MockResponse>) -> (r: MockProvider)
        ensures
            r.responses == responses,
            r.response_index == 0,
            !r.repeat_last,
    {
        MockProvider { responses, response_index: 0, repeat_last: false }
    }

    /// A provider that repeats the last answer of its script.
    pub fn new_with_repeat(responses: Vec<MockResponse>) -> (r: MockProvider)
        ensures
            r.responses == responses,
            r.response_index == 0,
            r.repeat_last,
    {
        MockProvider { responses, response_index: 0, repeat_last: true }
    }

    /// A provider that answers with a text, once.
    pub fn single_text_response(text: &str) -> (r: MockProvider)
        ensures
            script(r.responses@) == seq![Response::Text(text@)],
            r.response_index == 0,
            !r.repeat_last,
    {
        let mut v: Vec<MockResponse> = Vec::new();
        v.push(MockResponse::Text(text.to_owned()));
        assert(script(v@) =~= seq![Response::Text(text@)]);
        MockProvider::new(v)
    }

    /// A provider that always answers with a text.
    pub fn single_text_response_repeat(text: &str) -> (r: MockProvider)
        ensures
            script(r.responses@) == seq![Response::Text(text@)],
            r.response_index == 0,
            r.repeat_last,
    {
        let mut v: Vec<MockResponse> = Vec::new();
        v.push(MockResponse::Text(text.to_owned()));
        assert(script(v@) =~= seq![Response::Text(text@)]);
        MockProvider::new_with_repeat(v)
    }

    /// A provider that answers with a tool call, once.
    pub fn single_tool_call(call_id: &str, name: &str, arguments: Json) -> (r: MockProvider)
        ensures
            script(r.responses@) == seq![
                Response::ToolCalls(
                    seq![Call { id: call_id@, name: name@, arguments: arguments@ }],
                ),
            ],
            r.response_index == 0,
            !r.repeat_last,
    {
        let ghost c = Call { id: call_id@, name: name@, arguments: arguments@ };
        let mut calls: Vec<MockToolCall> = Vec::new();
        calls.push(
            MockToolCall { call_id: call_id.to_owned(), name: name.to_owned(), arguments },
        );
        assert(call_values(calls@) =~= seq![c]);
        let mut v: Vec<MockResponse> = Vec::new();
        v.push(MockResponse::ToolCalls(calls));
        assert(script(v@) =~= seq![Response::ToolCalls(seq![c])]);
        MockProvider::new(v)
    }

    /// A provider that plays the scroll scenario.
    pub fn approval_scroll_scenario() -> (r: MockProvider)
        ensures
            script(r.responses@) == scroll_script(),
            r.response_index == 0,
            r.repeat_last,
    {
        let first = make_scroll_text(0, 30, "this output fills the viewport");
        let second = make_scroll_text(30, 60, "keep scrolling through output");
        let mut list = chat_format::no_json();
        chat_format::push_json(&mut list, Json::str("touch /tmp/sned-approval-scroll-smoke"));
        assert(json::trees(list@) =~= seq![Tree::Str("touch /tmp/sned-approval-scroll-smoke"@)]);
        let mut command_args = Json::object();
        command_args.put("commands", Json::array(list));
        let command = MockToolCall {
            call_id: "approval-scroll-exec".to_owned(),
            name: "execute_command".to_owned(),
            arguments: command_args,
        };
        let mut end_args = Json::object();
        end_args.put("result", Json::str("approval-scroll smoke test complete"));
        let end = MockToolCall {
            call_id: "approval-scroll-complete".to_owned(),
            name: "attempt_completion".to_owned(),
            arguments: end_args,
        };
        let mut events: Vec<MockStreamEvent> = Vec::new();
        events.push(MockStreamEvent::Chunk(make_text(first.as_str())));
        events.push(MockStreamEvent::Delay(250_000_000));
        events.push(MockStreamEvent::Chunk(make_text(second.as_str())));
        events.push(MockStreamEvent::Delay(250_000_000));
        events.push(MockStreamEvent::Chunk(make_call(&command)));
        events.push(MockStreamEvent::Chunk(make_usage()));
        assert(steps(events@) =~= scroll_script()[0]->Stream_0);
        let mut ends: Vec<MockToolCall> = Vec::new();
        ends.push(end);
        assert(call_values(ends@) =~= scroll_script()[1]->ToolCalls_0);
        let mut v: Vec<MockResponse> = Vec::new();
        v.push(MockResponse::Stream(events));
        v.push(MockResponse::ToolCalls(ends));
        assert(script(v@) =~= scroll_script());
        MockProvider::new_with_repeat(v)
    }

    /// Plays the next answer of the script.
    pub fn create_message(&mut self) -> (out: Result<Vec<MockStreamEvent>, ProviderError>)
        requires
            old(self).response_index < usize::MAX,
        ensures
            final(self).responses == old(self).responses,
            final(self).repeat_last == old(self).repeat_last,
            final(self).response_index == old(self).response_index + 1,
            out matches Ok(v) ==> played(
                answer(
                    script(old(self).responses@),
                    old(self).response_index as nat,
                    old(self).repeat_last,
                ),
            ) == Ok::<Seq<Step>, Failure>(steps(v@)),
            out matches Err(e) ==> played(
                answer(
                    script(old(self).responses@),
                    old(self).response_index as nat,
                    old(self).repeat_last,
                ),
            ) == Err::<Seq<Step>, Failure>(e@),
    {
        let current: usize = self.response_index;
        self.response_index = current + 1;
        let n: usize = self.responses.len();
        let ghost s = script(self.responses@);
        if current < n {
            assert(s[current as int] == self.responses@[current as int]@);
            play(Some(&self.responses[current]))
        } else if self.repeat_last && n > 0 {
            assert(s.last() == self.responses@[n - 1]@);
            play(Some(&self.responses[n - 1]))
        } else {
            play(None)
        }
    }

    /// The model that the provider talks to.
    pub fn get_model(&self) -> (r: ProviderModel)
        ensures
            r.id@ == "mock-model"@,
            r.info@ == mock_model(),
    {
        let mut m = ModelInfo::default();
        m.name = Some("Mock Model".to_owned());
        m.max_tokens = Some(4096);
        m.context_window = Some(200_000);
        m.supports_images = Some(false);
        m.supports_reasoning = Some(false);
        m.description = Some("Mock model for testing".to_owned());
        m.supports_tools = Some(true);
        ProviderModel { id: "mock-model".to_owned(), info: m }
    }

    /// The name of the provider.
    pub fn name(&self) -> (r: &'static str)
        ensures
            r@ == "mock"@,
    {
        "mock"
    }
}

} // verus!
