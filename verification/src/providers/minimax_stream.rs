//! Assembly of a MiniMax response: visible text, reasoning and tool calls.

use crate::fields;
use crate::json;
use crate::json::{Json, Tree};
use crate::providers::calls;
use crate::providers::calls::{Call, CallTable};
use crate::providers::openai_stream;
use crate::providers::reasoning;
use crate::providers::sse;
use crate::providers::sse::{LineState, SseLineBuffer};
use crate::providers::stream_events;
use crate::providers::stream_events::{ToolDelta, ToolPart};
use crate::providers::tool_args;
use crate::providers::types;
use crate::providers::types::{
    ApiStreamChunk, ApiStreamTextChunk, ApiStreamUsageChunk, Chunk, Usage,
};
use crate::text;
use vstd::prelude::*;

verus! {

/// Longest buffered XML tool call, in bytes.
pub const MAX_XML_TOOL_CALL_BUFFER: usize = 65536;

/// Number of characters after which pending text is flushed anyway.
pub const MINIMAX_TEXT_FLUSH_THRESHOLD: usize = 64;

/// The reasoning part of the state of a MiniMax response.
#[derive(Debug)]
pub struct MinimaxReasoningState {
    /// All reasoning that was emitted.
    pub emitted_reasoning: String,
    /// The visible text stands inside a thinking tag.
    pub in_thinking_tag: bool,
    /// The end of the last content that may turn out to be a thinking tag.
    pub tag_carry: String,
}

/// The state of a MiniMax response.
#[derive(Debug)]
pub struct MinimaxStreamState {
    pub calls: CallTable,
    pub last_stop_reason: Option<String>,
    pub xml_buffer: String,
    pub pending_text: String,
    pub pending_text_signature: Option<String>,
    pub reasoning: MinimaxReasoningState,
}

/// The mathematical value of the state of a MiniMax response.
pub struct Mini {
    pub calls: Seq<Call>,
    pub last_stop: Option<Seq<char>>,
    pub xml: Seq<char>,
    pub pending: Seq<char>,
    pub signature: Option<Seq<char>>,
    pub emitted: Seq<char>,
    pub in_tag: bool,
    pub carry: Seq<char>,
}

impl View for MinimaxStreamState {
    type V = Mini;

    open spec fn view(&self) -> Mini {
        Mini {
            calls: self.calls@,
            last_stop: text::opt(self.last_stop_reason),
            xml: self.xml_buffer@,
            pending: self.pending_text@,
            signature: text::opt(self.pending_text_signature),
            emitted: self.reasoning.emitted_reasoning@,
            in_tag: self.reasoning.in_thinking_tag,
            carry: self.reasoning.tag_carry@,
        }
    }
}

/// The state before the first event.
pub open spec fn fresh_state() -> Mini {
    Mini {
        calls: Seq::empty(),
        last_stop: None,
        xml: Seq::empty(),
        pending: Seq::empty(),
        signature: None,
        emitted: Seq::empty(),
        in_tag: false,
        carry: Seq::empty(),
    }
}

impl MinimaxStreamState {
    /// The state before the first event.
    pub fn new() -> (r: MinimaxStreamState)
        ensures
            r@ == fresh_state(),
            calls::in_order(r@.calls),
    {
        MinimaxStreamState {
            calls: CallTable::new(),
            last_stop_reason: None,
            xml_buffer: String::new(),
            pending_text: String::new(),
            pending_text_signature: None,
            reasoning: MinimaxReasoningState {
                emitted_reasoning: String::new(),
                in_thinking_tag: false,
                tag_carry: String::new(),
            },
        }
    }
}

// ---------------------------------------------------------------------------
// Pending text
// ---------------------------------------------------------------------------

/// Pending text is worth showing: it holds a line end, is long, or ends where a
/// reader would pause.
pub open spec fn should_flush(s: Seq<char>) -> bool {
    s.len() > 0 && (text::has(s, "\n"@) || s.len() >= MINIMAX_TEXT_FLUSH_THRESHOLD
        || text::is_white(s.last()) || pauses(s.last()))
}

/// The punctuation after which a reader pauses.
pub open spec fn pauses(c: char) -> bool {
    c == '.' || c == '!' || c == '?' || c == ',' || c == ';' || c == ':'
}

/// Whether pending text is worth showing.
pub fn minimax_text_buffer_should_flush(buffer: &str) -> (r: bool)
    ensures
        r == should_flush(buffer@),
{
    let v = text::chars_of(buffer);
    if v.len() == 0 {
        return false;
    }
    if text::contains(buffer, "\n") {
        return true;
    }
    if v.len() >= MINIMAX_TEXT_FLUSH_THRESHOLD {
        return true;
    }
    let c: char = v[v.len() - 1];
    text::white(c) || c == '.' || c == '!' || c == '?' || c == ',' || c == ';' || c == ':'
}

/// The state after pending text was shown.
pub open spec fn flushed(s: Mini) -> Mini {
    if s.pending.len() == 0 {
        s
    } else {
        Mini { pending: Seq::empty(), signature: None, ..s }
    }
}

/// The chunk that shows pending text.
pub open spec fn flush_chunks(s: Mini, id: Seq<char>) -> Seq<Chunk> {
    if s.pending.len() == 0 {
        Seq::empty()
    } else {
        seq![Chunk::Text { text: s.pending, id: Some(id), signature: s.signature }]
    }
}

/// Shows pending text, if there is any.
pub fn flush_minimax_text_buffer(
    s: &mut MinimaxStreamState,
    event_id: &str,
    out: &mut Vec<ApiStreamChunk>,
)
    ensures
        final(s)@ == flushed(old(s)@),
        types::chunks(final(out)@) == types::chunks(old(out)@) + flush_chunks(
            old(s)@,
            event_id@,
        ),
{
    if s.pending_text.as_str().is_empty() {
        assert(types::chunks(out@) + flush_chunks(s@, event_id@) =~= types::chunks(out@));
        return;
    }
    let ghost before = s@;
    let chunk = ApiStreamChunk::Text(
        ApiStreamTextChunk {
            text: s.pending_text.clone(),
            id: Some(event_id.to_owned()),
            signature: text::copy_opt(&s.pending_text_signature),
        },
    );
    types::emit(out, chunk);
    s.pending_text = String::new();
    s.pending_text_signature = None;
    assert(types::chunks(out@) =~= types::chunks(old(out)@) + flush_chunks(before, event_id@));
}

// ---------------------------------------------------------------------------
// Reasoning
// ---------------------------------------------------------------------------

/// The state after a reasoning delta.
pub open spec fn reasoned(s: Mini, delta: Seq<char>) -> Mini {
    Mini { emitted: s.emitted + reasoning::fresh(s.emitted, delta), ..s }
}

/// The chunk of what is new in a reasoning delta.
pub open spec fn reasoning_chunks(s: Mini, delta: Seq<char>, id: Seq<char>) -> Seq<Chunk> {
    let new = reasoning::fresh(s.emitted, delta);
    if new.len() == 0 {
        Seq::empty()
    } else {
        seq![types::reasoning_chunk(new, Some(id))]
    }
}

/// What is new in a reasoning delta, which is appended to what was emitted.
pub fn normalize_minimax_reasoning_delta(
    state: &mut MinimaxReasoningState,
    reasoning: String,
) -> (r: Option<String>)
    ensures
        ({
            let new = reasoning::fresh(old(state).emitted_reasoning@, reasoning@);
            &&& r is Some == (new.len() > 0)
            &&& r matches Some(t) ==> t@ == new
            &&& final(state).emitted_reasoning@ == old(state).emitted_reasoning@ + new
            &&& final(state).in_thinking_tag == old(state).in_thinking_tag
            &&& final(state).tag_carry == old(state).tag_carry
        }),
{
    let ghost e = state.emitted_reasoning@;
    let ghost new = reasoning::fresh(e, reasoning@);
    let r = reasoning::normalize_reasoning_delta(&mut state.emitted_reasoning, reasoning);
    assert(new.len() == 0 ==> e + new =~= e);
    r
}

/// Shows what is new in a reasoning delta.
fn emit_minimax_reasoning(
    s: &mut MinimaxStreamState,
    event_id: &str,
    delta: String,
    out: &mut Vec<ApiStreamChunk>,
)
    ensures
        final(s)@ == reasoned(old(s)@, delta@),
        types::chunks(final(out)@) == types::chunks(old(out)@) + reasoning_chunks(
            old(s)@,
            delta@,
            event_id@,
        ),
{
    let ghost before = s@;
    let ghost d = delta@;
    let r = normalize_minimax_reasoning_delta(&mut s.reasoning, delta);
    match r {
        Some(t) => {
            types::emit_reasoning(out, t.as_str(), &Some(event_id.to_owned()));
            assert(types::chunks(out@) =~= types::chunks(old(out)@) + reasoning_chunks(
                before,
                d,
                event_id@,
            ));
        },
        None => {
            assert(types::chunks(out@) =~= types::chunks(old(out)@) + reasoning_chunks(
                before,
                d,
                event_id@,
            ));
        },
    }
}

// ---------------------------------------------------------------------------
// Thinking tags in visible text
// ---------------------------------------------------------------------------

/// The markers that open or close a thinking passage.
pub open spec fn markers(close: bool) -> Seq<Seq<char>> {
    if close {
        seq!["</think>"@, "<!-- /think -->"@]
    } else {
        seq!["<think>"@, "<!-- think -->"@]
    }
}

/// The position and the length of the first marker.
pub open spec fn next_marker(s: Seq<char>, close: bool) -> Option<(int, int)> {
    let a = text::find_from(s, markers(close)[0], 0);
    let b = text::find_from(s, markers(close)[1], 0);
    match (a, b) {
        (Some(i), Some(j)) => if i <= j {
            Some((i, markers(close)[0].len() as int))
        } else {
            Some((j, markers(close)[1].len() as int))
        },
        (Some(i), None) => Some((i, markers(close)[0].len() as int)),
        (None, Some(j)) => Some((j, markers(close)[1].len() as int)),
        (None, None) => None,
    }
}

/// A marker that was found lies within the text and is not empty.
pub proof fn lemma_next_marker(s: Seq<char>, close: bool)
    ensures
        next_marker(s, close) matches Some((i, n)) ==> 0 <= i && 0 < n && i + n <= s.len(),
{
    reveal_strlit("</think>");
    reveal_strlit("<!-- /think -->");
    reveal_strlit("<think>");
    reveal_strlit("<!-- think -->");
    text::lemma_find_from(s, markers(close)[0], 0);
    text::lemma_find_from(s, markers(close)[1], 0);
}

/// The position and the length of the first marker, in characters.
fn find_marker(v: &Vec<char>, close: bool) -> (r: Option<(usize, usize)>)
    ensures
        r matches Some((i, n)) ==> next_marker(v@, close) == Some((i as int, n as int)) && i + n
            <= v@.len() && n > 0,
        r is None ==> next_marker(v@, close) is None,
{
    let tag = text::chars_of(if close { "</think>" } else { "<think>" });
    let comment = text::chars_of(if close { "<!-- /think -->" } else { "<!-- think -->" });
    proof {
        lemma_next_marker(v@, close);
    }
    let a = text::position_from(v, &tag, 0);
    let b = text::position_from(v, &comment, 0);
    match (a, b) {
        (Some(i), Some(j)) => {
            if i <= j {
                Some((i, tag.len()))
            } else {
                Some((j, comment.len()))
            }
        },
        (Some(i), None) => Some((i, tag.len())),
        (None, Some(j)) => Some((j, comment.len())),
        (None, None) => None,
    }
}

/// The byte position and the byte length of the first marker.
fn marker_bytes(s: &str, close: bool) -> (r: Option<(usize, usize)>)
    ensures
        r matches Some((i, n)) ==> next_marker(s@, close) matches Some((k, m)) && i
            == text::byte_len(s@.take(k)) && n == text::byte_len(s@.subrange(k, k + m)),
        r is None ==> next_marker(s@, close) is None,
{
    let v = text::chars_of(s);
    let total: usize = v.len();
    match find_marker(&v, close) {
        Some((k, m)) => {
            assert(k + m <= total);
            let before = text::substring(&v, 0, k);
            let marker = text::substring(&v, k, k + m);
            assert(before@ =~= s@.take(k as int));
            Some((text::byte_count(before.as_str()), text::byte_count(marker.as_str())))
        },
        None => None,
    }
}

/// The byte position and the byte length of the first opening marker.
pub fn find_next_think_open(s: &str) -> (r: Option<(usize, usize)>)
    ensures
        r matches Some((i, n)) ==> next_marker(s@, false) matches Some((k, m)) && i
            == text::byte_len(s@.take(k)) && n == text::byte_len(s@.subrange(k, k + m)),
        r is None ==> next_marker(s@, false) is None,
{
    marker_bytes(s, false)
}

/// The byte position and the byte length of the first closing marker.
pub fn find_next_think_close(s: &str) -> (r: Option<(usize, usize)>)
    ensures
        r matches Some((i, n)) ==> next_marker(s@, true) matches Some((k, m)) && i
            == text::byte_len(s@.take(k)) && n == text::byte_len(s@.subrange(k, k + m)),
        r is None ==> next_marker(s@, true) is None,
{
    marker_bytes(s, true)
}

/// The number of characters at the end of a text that may be the beginning of a
/// marker.
pub open spec fn held_back(s: Seq<char>, close: bool) -> int {
    reasoning::partial_suffix(s, markers(close))
}

fn hold_back(v: &Vec<char>, close: bool) -> (n: usize)
    ensures
        n == held_back(v@, close),
        n <= v@.len(),
{
    let open: [&str; 2] = ["<think>", "<!-- think -->"];
    let shut: [&str; 2] = ["</think>", "<!-- /think -->"];
    if close {
        assert(reasoning::marker_texts(shut@) =~= markers(close));
        reasoning::partial_marker_suffix_chars(v, &shut)
    } else {
        assert(reasoning::marker_texts(open@) =~= markers(close));
        reasoning::partial_marker_suffix_chars(v, &open)
    }
}

/// The outcome of a piece of content.
pub struct Outcome {
    pub state: Mini,
    pub chunks: Seq<Chunk>,
    /// A thinking passage was closed, so visible text is shown at once.
    pub closed: bool,
}

/// The outcome of the content `rest`, in which thinking passages are told from
/// visible text.
pub open spec fn content_steps(s: Mini, rest: Seq<char>, id: Seq<char>) -> Outcome
    decreases rest.len(),
{
    if rest.len() == 0 {
        Outcome { state: s, chunks: Seq::empty(), closed: false }
    } else {
        proof {
            lemma_next_marker(rest, s.in_tag);
        }
        match next_marker(rest, s.in_tag) {
            Some((i, n)) => {
                if !s.in_tag {
                    let shown = Mini {
                        pending: s.pending + rest.take(i),
                        signature: Some(id),
                        ..s
                    };
                    let next = Mini { in_tag: true, ..flushed(shown) };
                    let o = content_steps(next, rest.skip(i + n), id);
                    Outcome { chunks: flush_chunks(shown, id) + o.chunks, ..o }
                } else {
                    let next = Mini { in_tag: false, ..reasoned(s, rest.take(i)) };
                    let o = content_steps(next, rest.skip(i + n), id);
                    Outcome {
                        chunks: reasoning_chunks(s, rest.take(i), id) + o.chunks,
                        closed: true,
                        ..o
                    }
                }
            },
            None => {
                let k = rest.len() - held_back(rest, s.in_tag);
                if !s.in_tag {
                    Outcome {
                        state: Mini {
                            pending: s.pending + rest.take(k),
                            signature: Some(id),
                            carry: s.carry + rest.skip(k),
                            ..s
                        },
                        chunks: Seq::empty(),
                        closed: false,
                    }
                } else {
                    Outcome {
                        state: Mini {
                            carry: s.carry + rest.skip(k),
                            ..reasoned(s, rest.take(k))
                        },
                        chunks: reasoning_chunks(s, rest.take(k), id),
                        closed: false,
                    }
                }
            },
        }
    }
}

/// Tells thinking passages from visible text, up to the end of the content.
/// Returns whether a passage was closed.
fn run_content(
    s: &mut MinimaxStreamState,
    v: &Vec<char>,
    event_id: &str,
    out: &mut Vec<ApiStreamChunk>,
) -> (closed: bool)
    ensures
        ({
            let o = content_steps(old(s)@, v@, event_id@);
            &&& final(s)@ == o.state
            &&& types::chunks(final(out)@) == types::chunks(old(out)@) + o.chunks
            &&& closed == o.closed
        }),
{
    let mut pos: usize = 0;
    let mut closed = false;
    let ghost all = content_steps(s@, v@, event_id@);
    let ghost start = types::chunks(out@);
    assert(v@.skip(0) =~= v@);
    while pos < v.len()
        invariant
            pos <= v@.len(),
            all == content_steps(old(s)@, v@, event_id@),
            start == types::chunks(old(out)@),
            ({
                let o = content_steps(s@, v@.skip(pos as int), event_id@);
                &&& o.state == all.state
                &&& types::chunks(out@) + o.chunks =~= start + all.chunks
                &&& (closed || o.closed) == all.closed
            }),
        decreases v@.len() - pos,
    {
        let ghost now = s@;
        let ghost emitted = types::chunks(out@);
        let rest_text = text::substring(v, pos, v.len());
        let rest = text::chars_of(rest_text.as_str());
        assert(rest@ =~= v@.skip(pos as int));
        let in_tag = s.reasoning.in_thinking_tag;
        match find_marker(&rest, in_tag) {
            Some((i, n)) => {
                let part = text::substring(&rest, 0, i);
                assert(part@ =~= rest@.take(i as int));
                assert(rest@.skip(i + n) =~= v@.skip(pos + i + n));
                let ghost o = content_steps(now, rest@, event_id@);
                if !in_tag {
                    text::push_text(&mut s.pending_text, part.as_str());
                    s.pending_text_signature = Some(event_id.to_owned());
                    let ghost shown = s@;
                    flush_minimax_text_buffer(s, event_id, out);
                    s.reasoning.in_thinking_tag = true;
                    assert(s@ == (Mini { in_tag: true, ..flushed(shown) }));
                    let ghost o2 = content_steps(s@, rest@.skip(i + n), event_id@);
                    assert(types::chunks(out@) + o2.chunks =~= emitted + o.chunks);
                } else {
                    emit_minimax_reasoning(s, event_id, part, out);
                    s.reasoning.in_thinking_tag = false;
                    closed = true;
                    let ghost o2 = content_steps(s@, rest@.skip(i + n), event_id@);
                    assert(types::chunks(out@) + o2.chunks =~= emitted + o.chunks);
                }
                pos = pos + i + n;
            },
            None => {
                let k: usize = rest.len() - hold_back(&rest, in_tag);
                let part = text::substring(&rest, 0, k);
                let tail = text::substring(&rest, k, rest.len());
                assert(part@ =~= rest@.take(k as int));
                assert(tail@ =~= rest@.skip(k as int));
                let ghost o = content_steps(now, rest@, event_id@);
                if !in_tag {
                    text::push_text(&mut s.pending_text, part.as_str());
                    s.pending_text_signature = Some(event_id.to_owned());
                } else {
                    emit_minimax_reasoning(s, event_id, part, out);
                }
                text::push_text(&mut s.reasoning.tag_carry, tail.as_str());
                assert(s@ == o.state);
                assert(types::chunks(out@) =~= emitted + o.chunks);
                return closed;
            },
        }
    }
    assert(v@.skip(pos as int) =~= Seq::empty());
    assert(types::chunks(out@) =~= start + all.chunks);
    closed
}

/// The outcome of a content delta: what was held back comes first, and visible
/// text is shown where a passage was closed or a reader would pause.
pub open spec fn content_outcome(s: Mini, content: Seq<char>, id: Seq<char>) -> (Mini, Seq<Chunk>) {
    let o = content_steps(Mini { carry: Seq::empty(), ..s }, s.carry + content, id);
    if !o.state.in_tag && ((o.closed && o.state.pending.len() > 0) || should_flush(
        o.state.pending,
    )) {
        (flushed(o.state), o.chunks + flush_chunks(o.state, id))
    } else {
        (o.state, o.chunks)
    }
}

/// Takes a content delta in.
pub fn process_minimax_content_delta(
    s: &mut MinimaxStreamState,
    event_id: &str,
    content: &str,
    out: &mut Vec<ApiStreamChunk>,
)
    ensures
        final(s)@ == content_outcome(old(s)@, content@, event_id@).0,
        types::chunks(final(out)@) == types::chunks(old(out)@) + content_outcome(
            old(s)@,
            content@,
            event_id@,
        ).1,
{
    let ghost before = s@;
    let mut whole = s.reasoning.tag_carry.clone();
    s.reasoning.tag_carry = String::new();
    text::push_text(&mut whole, content);
    let v = text::chars_of(whole.as_str());
    assert(v@ == before.carry + content@);
    assert(s@ == (Mini { carry: Seq::empty(), ..before }));
    let closed = run_content(s, &v, event_id, out);
    if !s.reasoning.in_thinking_tag && ((closed && !s.pending_text.as_str().is_empty())
        || minimax_text_buffer_should_flush(s.pending_text.as_str())) {
        flush_minimax_text_buffer(s, event_id, out);
    }
    assert(types::chunks(out@) =~= types::chunks(old(out)@) + content_outcome(
        before,
        content@,
        event_id@,
    ).1);
}

/// The state after what was held back was let go.
pub open spec fn carry_released(s: Mini, id: Seq<char>) -> Mini {
    let t = Mini { carry: Seq::empty(), ..s };
    if s.carry.len() == 0 {
        s
    } else if s.in_tag {
        reasoned(t, s.carry)
    } else {
        Mini { pending: s.pending + s.carry, signature: Some(id), ..t }
    }
}

/// The chunk of what was held back inside a thinking passage.
pub open spec fn carry_chunks(s: Mini, id: Seq<char>) -> Seq<Chunk> {
    if s.carry.len() > 0 && s.in_tag {
        reasoning_chunks(s, s.carry, id)
    } else {
        Seq::empty()
    }
}

/// Lets go of what was held back, at the end of the response.
pub fn flush_minimax_tag_carry(
    s: &mut MinimaxStreamState,
    event_id: &str,
    out: &mut Vec<ApiStreamChunk>,
)
    ensures
        final(s)@ == carry_released(old(s)@, event_id@),
        types::chunks(final(out)@) == types::chunks(old(out)@) + carry_chunks(
            old(s)@,
            event_id@,
        ),
{
    let ghost before = s@;
    let carry = s.reasoning.tag_carry.clone();
    s.reasoning.tag_carry = String::new();
    if carry.as_str().is_empty() {
        assert(s@.carry =~= before.carry);
        assert(types::chunks(out@) =~= types::chunks(old(out)@) + carry_chunks(before, event_id@));
        return;
    }
    if s.reasoning.in_thinking_tag {
        emit_minimax_reasoning(s, event_id, carry, out);
    } else {
        text::push_text(&mut s.pending_text, carry.as_str());
        s.pending_text_signature = Some(event_id.to_owned());
        assert(types::chunks(out@) =~= types::chunks(old(out)@) + carry_chunks(before, event_id@));
    }
}

// ---------------------------------------------------------------------------
// Tool calls written as XML in visible text
// ---------------------------------------------------------------------------

/// What `regex` captures: the first group of the first match of a pattern.
pub uninterp spec fn first_group(pattern: Seq<char>, s: Seq<char>) -> Option<Seq<char>>;

/// What `regex` captures: the first two groups of every match of a pattern.
pub uninterp spec fn group_pairs(pattern: Seq<char>, s: Seq<char>) -> Seq<(Seq<char>, Seq<char>)>;

/// Calls `regex::Regex::captures` and takes the first group of the match. The
/// outcome is a function of the pattern and the text alone.
#[verifier::external_body]
fn capture_first(pattern: &str, s: &str) -> (r: Option<String>)
    ensures
        text::opt(r) == first_group(pattern@, s@),
{
    let re = regex::Regex::new(pattern).ok()?;
    let found = re.captures(s)?;
    found.get(1).map(|m| m.as_str().to_string())
}

/// Calls `regex::Regex::captures_iter` and takes the first two groups of each
/// match, in order. The pattern has two groups, and both take part in every match. The
/// outcome is a function of the pattern and the text alone.
#[verifier::external_body]
fn capture_pairs(pattern: &str, s: &str) -> (r: Vec<(String, String)>)
    requires
        pattern@ == parameter_pattern(),
    ensures
        text::pair_texts(r@) == group_pairs(pattern@, s@),
{
    match regex::Regex::new(pattern) {
        Ok(re) => re.captures_iter(s).map(|c| (c[1].to_string(), c[2].to_string())).collect(),
        Err(_) => Vec::new(),
    }
}

/// The pattern of the name of a tool call.
pub open spec fn name_pattern() -> Seq<char> {
    "<invoke\\s+name=[\"']([^\"']+)[\"']>"@
}

/// The pattern of a parameter of a tool call.
pub open spec fn parameter_pattern() -> Seq<char> {
    "(?s)<parameter\\s+name=[\"']([^\"']+)[\"']>(.*?)</parameter>"@
}

/// The text is written as a JSON object or array.
pub open spec fn looks_like_json(s: Seq<char>) -> bool {
    (text::begins(s, "{"@) && text::ends(s, "}"@)) || (text::begins(s, "["@) && text::ends(
        s,
        "]"@,
    ))
}

/// The value of a parameter: what it holds as JSON where it is written as JSON,
/// and its text else.
pub open spec fn parameter_value(s: Seq<char>) -> Tree {
    let t = text::trimmed(s);
    if looks_like_json(t) && json::parsed(t) is Some {
        json::parsed(t)->0
    } else {
        Tree::Str(s)
    }
}

/// The parameters as an object, from the pairs of names and texts.
pub open spec fn parameters(pairs: Seq<(Seq<char>, Seq<char>)>) -> Tree
    decreases pairs.len(),
{
    if pairs.len() == 0 {
        json::empty_obj()
    } else {
        parameters(pairs.drop_last()).put(pairs.last().0, parameter_value(pairs.last().1))
    }
}

/// The name and the arguments that a block of XML calls for. A block without a name
/// is handed on as it is.
pub open spec fn block_call(block: Seq<char>) -> (Seq<char>, Tree) {
    match first_group(name_pattern(), block) {
        Some(name) => (name, parameters(group_pairs(parameter_pattern(), block))),
        None => ("xml_tool_call"@, Tree::Str(block)),
    }
}

fn read_parameter(s: &str) -> (r: Json)
    ensures
        r@ == parameter_value(s@),
{
    let t = text::trim(s);
    let object = text::starts_with(t.as_str(), "{") && text::ends_with(t.as_str(), "}");
    let array = text::starts_with(t.as_str(), "[") && text::ends_with(t.as_str(), "]");
    if object || array {
        if let Some(j) = json::parse(t.as_str()) {
            return j;
        }
    }
    Json::str(s)
}

/// The parameters as an object, from the pairs of names and texts.
pub fn collect_parameters(pairs: &Vec<(String, String)>) -> (r: Json)
    ensures
        r@ == parameters(text::pair_texts(pairs@)),
{
    let mut out = Json::object();
    let mut i: usize = 0;
    let ghost ps = text::pair_texts(pairs@);
    assert(ps.take(0) =~= Seq::empty());
    while i < pairs.len()
        invariant
            i <= pairs@.len(),
            ps == text::pair_texts(pairs@),
            out@ == parameters(ps.take(i as int)),
        decreases pairs@.len() - i,
    {
        proof {
            assert(ps.take(i + 1).drop_last() =~= ps.take(i as int));
            assert(ps.take(i + 1).last() == (pairs@[i as int].0@, pairs@[i as int].1@));
        }
        out.put(pairs[i].0.as_str(), read_parameter(pairs[i].1.as_str()));
        i = i + 1;
    }
    assert(ps.take(i as int) =~= ps);
    out
}

/// The name and the arguments of an XML tool call.
pub fn parse_minimax_xml_tool_call(xml: &str) -> (r: Option<(String, Json)>)
    ensures
        r is Some == first_group(name_pattern(), xml@) is Some,
        r matches Some((name, arguments)) ==> block_call(xml@) == (name@, arguments@),
{
    let name = match capture_first("<invoke\\s+name=[\"']([^\"']+)[\"']>", xml) {
        Some(n) => n,
        None => return None,
    };
    let pairs = capture_pairs(
        "(?s)<parameter\\s+name=[\"']([^\"']+)[\"']>(.*?)</parameter>",
        xml,
    );
    Some((name, collect_parameters(&pairs)))
}

/// The tag that ends an XML tool call.
pub open spec fn closing_tag() -> Seq<char> {
    "</minimax:tool_call>"@
}

/// What is left of the buffer after its complete tool calls were taken out.
pub open spec fn xml_rest(xml: Seq<char>) -> Seq<char>
    decreases xml.len(),
{
    proof {
        lemma_closing_tag(xml);
    }
    match text::find_from(xml, closing_tag(), 0) {
        Some(i) => xml_rest(xml.skip(i + closing_tag().len())),
        None => xml,
    }
}

/// The chunks of the complete tool calls in the buffer.
pub open spec fn xml_chunks(xml: Seq<char>, id: Seq<char>) -> Seq<Chunk>
    decreases xml.len(),
{
    proof {
        lemma_closing_tag(xml);
    }
    match text::find_from(xml, closing_tag(), 0) {
        Some(i) => {
            let end = i + closing_tag().len();
            let (name, arguments) = block_call(xml.take(end));
            seq![
                types::call_chunk("minimax-"@ + id, name, json::printed(arguments), Some(id)),
            ] + xml_chunks(xml.skip(end), id)
        },
        None => Seq::empty(),
    }
}

pub proof fn lemma_closing_tag(xml: Seq<char>)
    ensures
        text::find_from(xml, closing_tag(), 0) matches Some(i) ==> 0 <= i && i
            + closing_tag().len() <= xml.len() && closing_tag().len() == 20,
{
    reveal_strlit("</minimax:tool_call>");
    text::lemma_find_from(xml, closing_tag(), 0);
}

/// Extract and emit all complete XML tool call blocks from the buffer.
pub fn extract_and_emit_xml_tool_calls(
    xml_buffer: &mut String,
    event_id: &str,
    out: &mut Vec<ApiStreamChunk>,
)
    ensures
        final(xml_buffer)@ == xml_rest(old(xml_buffer)@),
        types::chunks(final(out)@) == types::chunks(old(out)@) + xml_chunks(
            old(xml_buffer)@,
            event_id@,
        ),
{
    let ghost all = old(xml_buffer)@;
    let ghost start = types::chunks(out@);
    let tag = text::chars_of("</minimax:tool_call>");
    let mut call_id = "minimax-".to_owned();
    text::push_text(&mut call_id, event_id);
    let chunk_id = Some(event_id.to_owned());
    let mut going = true;
    while going
        invariant
            tag@ == closing_tag(),
            call_id@ == "minimax-"@ + event_id@,
            text::opt(chunk_id) == Some(event_id@),
            xml_rest(xml_buffer@) == xml_rest(all),
            types::chunks(out@) + xml_chunks(xml_buffer@, event_id@) =~= start + xml_chunks(
                all,
                event_id@,
            ),
            !going ==> xml_rest(xml_buffer@) == xml_buffer@ && xml_chunks(xml_buffer@, event_id@)
                =~= Seq::empty(),
        decreases
            if going {
                1int
            } else {
                0int
            },
            xml_buffer@.len(),
    {
        let ghost now = xml_buffer@;
        let ghost emitted = types::chunks(out@);
        proof {
            lemma_closing_tag(now);
        }
        let v = text::chars_of(xml_buffer.as_str());
        match text::position_from(&v, &tag, 0) {
            None => {
                going = false;
            },
            Some(i) => {
                let total: usize = v.len();
                let end: usize = i + tag.len();
                let block = text::substring(&v, 0, end);
                assert(block@ =~= now.take(end as int));
                let rest = text::substring(&v, end, total);
                assert(rest@ =~= now.skip(end as int));
                let (name, arguments) = match parse_minimax_xml_tool_call(block.as_str()) {
                    Some((n, a)) => (n, a),
                    None => ("xml_tool_call".to_owned(), Json::str(block.as_str())),
                };
                let printed = json::print(&arguments);
                types::emit_call(
                    out,
                    call_id.as_str(),
                    name.as_str(),
                    printed.as_str(),
                    &chunk_id,
                );
                *xml_buffer = rest;
                assert(types::chunks(out@) + xml_chunks(rest@, event_id@) =~= emitted + xml_chunks(
                    now,
                    event_id@,
                ));
            },
        }
    }
}

// ---------------------------------------------------------------------------
// Events
// ---------------------------------------------------------------------------

/// The token counts of an event.
#[derive(Debug)]
pub struct MinimaxUsage {
    pub prompt_tokens: u32,
    pub completion_tokens: u32,
    pub cached_tokens: Option<u32>,
    pub cache_miss_tokens: Option<u32>,
}

/// One choice of an event.
#[derive(Debug)]
pub struct MinimaxChoice {
    pub content: Option<String>,
    pub tool_calls: Vec<ToolDelta>,
    pub reasoning_content: Option<String>,
    pub reasoning_details: Vec<String>,
    pub finish_reason: Option<String>,
}

/// An event of a MiniMax response.
#[derive(Debug)]
pub struct MinimaxEvent {
    pub id: String,
    /// The first choice, where the event has one.
    pub choice: Option<MinimaxChoice>,
    pub usage: Option<MinimaxUsage>,
}

/// The mathematical value of a choice.
pub struct Choice {
    pub content: Option<Seq<char>>,
    pub tools: Seq<ToolPart>,
    pub reasoning: Option<Seq<char>>,
    pub details: Seq<Seq<char>>,
    pub finish: Option<Seq<char>>,
}

/// The mathematical value of an event.
pub struct Event {
    pub id: Seq<char>,
    pub choice: Option<Choice>,
    pub usage: Option<MinimaxUsage>,
}

impl View for MinimaxChoice {
    type V = Choice;

    open spec fn view(&self) -> Choice {
        Choice {
            content: text::opt(self.content),
            tools: stream_events::tool_parts(self.tool_calls@),
            reasoning: text::opt(self.reasoning_content),
            details: text::texts(self.reasoning_details@),
            finish: text::opt(self.finish_reason),
        }
    }
}

impl View for MinimaxEvent {
    type V = Event;

    open spec fn view(&self) -> Event {
        Event {
            id: self.id@,
            choice: match self.choice {
                Some(c) => Some(c@),
                None => None,
            },
            usage: self.usage,
        }
    }
}

/// The members of a reasoning detail.
pub open spec fn detail_members() -> Seq<Seq<char>> {
    seq!["text"@]
}

/// The text of a reasoning detail.
pub open spec fn detail_text(t: Tree) -> Option<Seq<char>> {
    fields::text_of(fields::record(t, detail_members(), 1), "text"@)
}

/// The texts of a list of reasoning details, if each has one.
pub open spec fn detail_texts(ts: Seq<Tree>) -> Option<Seq<Seq<char>>>
    decreases ts.len(),
{
    if ts.len() == 0 {
        Some(Seq::empty())
    } else {
        match (detail_texts(ts.drop_last()), detail_text(ts.last())) {
            (Some(v), Some(t)) => Some(v.push(t)),
            _ => None,
        }
    }
}

/// The members of the news of a choice.
pub open spec fn delta_members() -> Seq<Seq<char>> {
    seq![
        "content"@,
        "tool_calls"@,
        "reasoning_content"@,
        "reasoning_details"@,
        "role"@,
        "name"@,
    ]
}

/// The members of a choice.
pub open spec fn choice_members() -> Seq<Seq<char>> {
    seq!["delta"@, "finish_reason"@, "index"@]
}

/// The choice that a JSON object describes.
pub open spec fn choice_of(t: Tree) -> Option<Choice> {
    let t = fields::record(t, choice_members(), 2);
    match t.get("delta"@) {
        Some(n) => {
            let d = fields::record(n, delta_members(), 3);
            if !(d is Obj) || fields::number_or_zero(t, "index"@, usize::MAX as int) is None
                || fields::maybe_text(d, "role"@) is None || fields::maybe_text(d, "name"@) is None {
                None
            } else {
                match (
                    fields::maybe_text(t, "finish_reason"@),
                    fields::maybe_text(d, "content"@),
                    fields::list_or_empty(d, "tool_calls"@),
                    fields::maybe_text(d, "reasoning_content"@),
                    fields::list_or_empty(d, "reasoning_details"@),
                ) {
                    (Some(finish), Some(content), Some(calls), Some(reasoning), Some(details)) =>
                        match (
                        stream_events::all_tool_parts(calls, true),
                        detail_texts(details),
                    ) {
                        (Some(tools), Some(details)) => Some(
                            Choice { content, tools, reasoning, details, finish },
                        ),
                        _ => None,
                    },
                    _ => None,
                }
            }
        },
        None => None,
    }
}

/// The cached token count of an object of token details.
pub open spec fn cached_of(t: Tree) -> Option<Option<int>> {
    match fields::maybe_member(t, "prompt_tokens_details"@) {
        None => Some(None),
        Some(d) => match fields::number_of(
            fields::record(d, openai_stream::prompt_details_members(), 1),
            "cached_tokens"@,
            u32::MAX as int,
        ) {
            Some(n) => Some(Some(n)),
            None => None,
        },
    }
}

/// The number of an optional count.
pub open spec fn opt_count(n: Option<int>) -> Option<u32> {
    match n {
        Some(k) => Some(k as u32),
        None => None,
    }
}

/// The members of token counts.
pub open spec fn usage_members() -> Seq<Seq<char>> {
    seq![
        "prompt_tokens"@,
        "completion_tokens"@,
        "prompt_tokens_details"@,
        "prompt_cache_miss_tokens"@,
        "total_tokens"@,
        "total_characters"@,
    ]
}

/// The token counts that a JSON object describes.
pub open spec fn usage_of(t: Tree) -> Option<MinimaxUsage> {
    let t = fields::record(t, usage_members(), 4);
    let max = u32::MAX as int;
    if !(t is Obj) || fields::number_or_zero(t, "total_tokens"@, max) is None
        || fields::number_or_zero(t, "total_characters"@, max) is None {
        None
    } else {
        match (
            fields::number_or_zero(t, "prompt_tokens"@, max),
            fields::number_or_zero(t, "completion_tokens"@, max),
            cached_of(t),
            fields::maybe_number(t, "prompt_cache_miss_tokens"@, max),
        ) {
            (Some(prompt), Some(completion), Some(cached), Some(miss)) => Some(
                MinimaxUsage {
                    prompt_tokens: prompt as u32,
                    completion_tokens: completion as u32,
                    cached_tokens: opt_count(cached),
                    cache_miss_tokens: opt_count(miss),
                },
            ),
            _ => None,
        }
    }
}

/// Every item of a list describes a choice.
pub open spec fn all_choices(ts: Seq<Tree>) -> bool {
    forall|i: int| 0 <= i < ts.len() ==> choice_of(#[trigger] ts[i]) is Some
}

/// The members of an event.
pub open spec fn event_members() -> Seq<Seq<char>> {
    seq!["id"@, "choices"@, "usage"@, "model"@, "object"@, "created"@]
}

/// The event that a JSON object describes.
pub open spec fn event_of(t: Tree) -> Option<Event> {
    let t = fields::record(t, event_members(), 3);
    if fields::maybe_text(t, "model"@) is None || fields::maybe_text(t, "object"@) is None
        || fields::maybe_number(t, "created"@, u64::MAX as int) is None {
        None
    } else {
        match (fields::text_of(t, "id"@), fields::list_of(t, "choices"@)) {
            (Some(id), Some(choices)) => if !all_choices(choices) {
                None
            } else {
                let choice = if choices.len() > 0 {
                    choice_of(choices[0])
                } else {
                    None
                };
                match fields::maybe_member(t, "usage"@) {
                    None => Some(Event { id, choice, usage: None }),
                    Some(u) => match usage_of(u) {
                        Some(usage) => Some(Event { id, choice, usage: Some(usage) }),
                        None => None,
                    },
                }
            },
            _ => None,
        }
    }
}

proof fn lemma_detail_texts_none(ts: Seq<Tree>, n: int)
    requires
        0 <= n <= ts.len(),
        detail_texts(ts.take(n)) is None,
    ensures
        detail_texts(ts) is None,
    decreases ts.len() - n,
{
    if n < ts.len() {
        assert(ts.take(n + 1).drop_last() =~= ts.take(n));
        lemma_detail_texts_none(ts, n + 1);
    } else {
        assert(ts.take(n) =~= ts);
    }
}

fn read_detail(j: &Json) -> (r: Option<String>)
    ensures
        text::opt(r) == detail_text(j@),
{
    let names: [&str; 1] = ["text"];
    assert(fields::names_of(names@) =~= detail_members());
    let listed = fields::read_listed(j, &names, 1);
    let o = match &listed {
        Some(r) => r,
        None => j,
    };
    fields::read_text(o, "text")
}

fn read_details(v: &Vec<Json>) -> (r: Option<Vec<String>>)
    ensures
        r matches Some(d) ==> detail_texts(json::trees(v@)) == Some(text::texts(d@)),
        r is None ==> detail_texts(json::trees(v@)) is None,
{
    let ghost ts = json::trees(v@);
    let mut out: Vec<String> = Vec::new();
    let mut i: usize = 0;
    assert(text::texts(out@) =~= Seq::empty());
    while i < v.len()
        invariant
            i <= v@.len(),
            ts == json::trees(v@),
            detail_texts(ts.take(i as int)) == Some(text::texts(out@)),
        decreases v@.len() - i,
    {
        proof {
            assert(ts.take(i + 1).drop_last() =~= ts.take(i as int));
            assert(ts.take(i + 1).last() == v@[i as int]@);
        }
        match read_detail(&v[i]) {
            None => {
                proof {
                    lemma_detail_texts_none(ts, i + 1);
                }
                return None;
            },
            Some(t) => {
                let ghost before = out@;
                out.push(t);
                assert(text::texts(out@) =~= text::texts(before).push(t@));
            },
        }
        i = i + 1;
    }
    assert(ts.take(i as int) =~= ts);
    Some(out)
}

fn read_choice(j: &Json) -> (r: Option<MinimaxChoice>)
    ensures
        r matches Some(c) ==> choice_of(j@) == Some(c@),
        r is None ==> choice_of(j@) is None,
{
    let names: [&str; 3] = ["delta", "finish_reason", "index"];
    assert(fields::names_of(names@) =~= choice_members());
    let listed = fields::read_listed(j, &names, 2);
    let o = match &listed {
        Some(r) => r,
        None => j,
    };
    let n = match o.get("delta") {
        Some(d) => d,
        None => return None,
    };
    let delta_names: [&str; 6] = [
        "content",
        "tool_calls",
        "reasoning_content",
        "reasoning_details",
        "role",
        "name",
    ];
    assert(fields::names_of(delta_names@) =~= delta_members());
    let news = fields::read_listed(n, &delta_names, 3);
    let d = match &news {
        Some(r) => r,
        None => n,
    };
    if d.as_object().is_none() || fields::read_number_or_zero(
        o,
        "index",
        usize::MAX as u64,
    ).is_none() || fields::read_maybe_text(d, "role").is_none() || fields::read_maybe_text(
        d,
        "name",
    ).is_none() {
        return None;
    }
    let finish_reason = match fields::read_maybe_text(o, "finish_reason") {
        Some(f) => f,
        None => return None,
    };
    let content = match fields::read_maybe_text(d, "content") {
        Some(c) => c,
        None => return None,
    };
    let reasoning_content = match fields::read_maybe_text(d, "reasoning_content") {
        Some(c) => c,
        None => return None,
    };
    let none: Vec<Json> = Vec::new();
    assert(json::trees(none@) =~= Seq::empty());
    let calls = match fields::read_list_or_empty(d, "tool_calls") {
        Some(Some(v)) => v,
        Some(None) => &none,
        None => return None,
    };
    let details = match fields::read_list_or_empty(d, "reasoning_details") {
        Some(Some(v)) => v,
        Some(None) => &none,
        None => return None,
    };
    let tool_calls = match stream_events::read_tool_deltas(calls, true) {
        Some(t) => t,
        None => return None,
    };
    let reasoning_details = match read_details(details) {
        Some(t) => t,
        None => return None,
    };
    Some(MinimaxChoice { content, tool_calls, reasoning_content, reasoning_details, finish_reason })
}

fn read_usage(j: &Json) -> (r: Option<MinimaxUsage>)
    ensures
        r == usage_of(j@),
{
    let names: [&str; 6] = [
        "prompt_tokens",
        "completion_tokens",
        "prompt_tokens_details",
        "prompt_cache_miss_tokens",
        "total_tokens",
        "total_characters",
    ];
    assert(fields::names_of(names@) =~= usage_members());
    let listed = fields::read_listed(j, &names, 4);
    let o = match &listed {
        Some(r) => r,
        None => j,
    };
    let max: u64 = u32::MAX as u64;
    if o.as_object().is_none() || fields::read_number_or_zero(o, "total_tokens", max).is_none()
        || fields::read_number_or_zero(o, "total_characters", max).is_none() {
        return None;
    }
    let prompt_tokens: u32 = match fields::read_number_or_zero(o, "prompt_tokens", max) {
        Some(n) => n as u32,
        None => return None,
    };
    let completion_tokens: u32 = match fields::read_number_or_zero(o, "completion_tokens", max) {
        Some(n) => n as u32,
        None => return None,
    };
    let cached_tokens: Option<u32> = match fields::read_member(o, "prompt_tokens_details") {
        None => None,
        Some(d) => match openai_stream::read_cached(d) {
            Some(n) => Some(n),
            None => return None,
        },
    };
    let cache_miss_tokens: Option<u32> = match fields::read_maybe_number(
        o,
        "prompt_cache_miss_tokens",
        max,
    ) {
        Some(Some(n)) => Some(n as u32),
        Some(None) => None,
        None => return None,
    };
    Some(MinimaxUsage { prompt_tokens, completion_tokens, cached_tokens, cache_miss_tokens })
}

/// Reads an event.
pub fn read_minimax_event(j: &Json) -> (r: Option<MinimaxEvent>)
    ensures
        r matches Some(e) ==> event_of(j@) == Some(e@),
        r is None ==> event_of(j@) is None,
{
    let names: [&str; 6] = ["id", "choices", "usage", "model", "object", "created"];
    assert(fields::names_of(names@) =~= event_members());
    let listed = fields::read_listed(j, &names, 3);
    let o = match &listed {
        Some(r) => r,
        None => j,
    };
    if fields::read_maybe_text(o, "model").is_none() || fields::read_maybe_text(
        o,
        "object",
    ).is_none() || fields::read_maybe_number(o, "created", u64::MAX).is_none() {
        return None;
    }
    let id = match fields::read_text(o, "id") {
        Some(t) => t,
        None => return None,
    };
    let choices = match fields::read_list(o, "choices") {
        Some(v) => v,
        None => return None,
    };
    let ghost ts = json::trees(choices@);
    let mut choice: Option<MinimaxChoice> = None;
    let mut i: usize = choices.len();
    while i > 0
        invariant
            i <= choices@.len(),
            ts == json::trees(choices@),
            o@ == fields::record(j@, event_members(), 3),
            fields::list_of(o@, "choices"@) == Some(ts),
            forall|k: int| i <= k < ts.len() ==> choice_of(#[trigger] ts[k]) is Some,
            i < ts.len() ==> choice is Some && choice_of(ts[i as int]) == Some((choice->0)@),
            i == ts.len() ==> choice is None,
        decreases i,
    {
        i = i - 1;
        assert(ts[i as int] == choices@[i as int]@);
        match read_choice(&choices[i]) {
            Some(c) => {
                choice = Some(c);
            },
            None => {
                return None;
            },
        }
    }
    match fields::read_member(o, "usage") {
        None => Some(MinimaxEvent { id, choice, usage: None }),
        Some(u) => match read_usage(u) {
            Some(usage) => Some(MinimaxEvent { id, choice, usage: Some(usage) }),
            None => None,
        },
    }
}

// ---------------------------------------------------------------------------
// What an event does
// ---------------------------------------------------------------------------

/// The state of a response and the chunks that were emitted so far.
pub struct Progress {
    pub state: Mini,
    pub chunks: Seq<Chunk>,
}

impl Progress {
    /// Shows pending text.
    pub open spec fn flush(self, id: Seq<char>) -> Progress {
        Progress {
            state: flushed(self.state),
            chunks: self.chunks + flush_chunks(self.state, id),
        }
    }

    /// Takes a reasoning delta in, after pending text.
    pub open spec fn reason(self, delta: Seq<char>, id: Seq<char>) -> Progress {
        let p = self.flush(id);
        Progress {
            state: reasoned(p.state, delta),
            chunks: p.chunks + reasoning_chunks(p.state, delta, id),
        }
    }

    /// Takes a list of reasoning deltas in.
    pub open spec fn reason_all(self, deltas: Seq<Seq<char>>, id: Seq<char>) -> Progress
        decreases deltas.len(),
    {
        if deltas.len() == 0 {
            self
        } else {
            self.reason_all(deltas.drop_last(), id).reason(deltas.last(), id)
        }
    }

    /// Takes content in: into the XML buffer where it holds a tool call or continues
    /// one, as visible text else. A buffer that would grow too long is dropped.
    pub open spec fn content(self, t: Seq<char>, id: Seq<char>) -> Progress {
        if text::has(t, "<minimax:tool_call>"@) || self.state.xml.len() > 0 {
            let p = self.flush(id);
            let xml = if text::byte_len(self.state.xml) + text::byte_len(t)
                <= MAX_XML_TOOL_CALL_BUFFER {
                self.state.xml + t
            } else {
                Seq::empty()
            };
            Progress {
                state: Mini { xml: xml_rest(xml), ..p.state },
                chunks: p.chunks + xml_chunks(xml, id),
            }
        } else {
            let o = content_outcome(self.state, t, id);
            Progress { state: o.0, chunks: self.chunks + o.1 }
        }
    }

    /// Takes a fragment of a tool call in, after pending text. A call that was handed
    /// out takes nothing more in.
    pub open spec fn tool(self, p: ToolPart, id: Seq<char>) -> Progress {
        if calls::call_at(self.state.calls, p.index).completed {
            self
        } else {
            let f = self.flush(id);
            Progress { state: Mini { calls: with_part(f.state.calls, p), ..f.state }, ..f }
        }
    }

    /// Takes a list of fragments in.
    pub open spec fn tools(self, parts: Seq<ToolPart>, id: Seq<char>) -> Progress
        decreases parts.len(),
    {
        if parts.len() == 0 {
            self
        } else {
            self.tools(parts.drop_last(), id).tool(parts.last(), id)
        }
    }

    /// Takes the reason for the end of a choice in: where the model ended with tool
    /// calls, the ready calls are handed out.
    pub open spec fn end(self, finish: Option<Seq<char>>, id: Seq<char>) -> Progress {
        match finish {
            None => self,
            Some(f) => {
                let p = if f == "tool_calls"@ || f == "tool_call"@ {
                    let q = self.flush(id);
                    Progress {
                        state: Mini { calls: calls::handed_out(q.state.calls), ..q.state },
                        chunks: q.chunks + calls::ready_chunks(q.state.calls, Some(id)),
                    }
                } else {
                    self
                };
                Progress { state: Mini { last_stop: finish, ..p.state }, ..p }
            },
        }
    }

    /// Takes a choice in: reasoning, content, tool calls, and its end.
    pub open spec fn choice(self, c: Choice, id: Seq<char>) -> Progress {
        let a = match c.reasoning {
            Some(r) => self.reason(r, id),
            None => self,
        };
        let b = a.reason_all(c.details, id);
        let d = match c.content {
            Some(t) => b.content(t, id),
            None => b,
        };
        d.tools(c.tools, id).end(c.finish, id)
    }

    /// Takes an event in: its first choice, and its token counts.
    pub open spec fn event(self, e: Event) -> Progress {
        let p = match e.choice {
            Some(c) => self.choice(c, e.id),
            None => self,
        };
        match e.usage {
            None => p,
            Some(u) => Progress {
                chunks: p.chunks.push(
                    Chunk::Usage(
                        usage_value(
                            u,
                            match e.choice {
                                Some(c) => c.finish,
                                None => None,
                            },
                            e.id,
                        ),
                    ),
                ),
                ..p
            },
        }
    }

    /// Takes a line in.
    pub open spec fn line(self, line: Seq<char>) -> Progress {
        let l = text::trimmed(line);
        if l.len() == 0 || l == "data: [DONE]"@ || l == "[DONE]"@ {
            self
        } else {
            match line_event(l) {
                Some(e) => self.event(e),
                None => Progress {
                    chunks: self.chunks.push(Chunk::Error(parse_failure(l))),
                    ..self
                },
            }
        }
    }

    /// Takes lines in, in order.
    pub open spec fn lines(self, lines: Seq<Seq<char>>) -> Progress
        decreases lines.len(),
    {
        if lines.len() == 0 {
            self
        } else {
            self.lines(lines.drop_last()).line(lines.last())
        }
    }

    /// Takes bytes in that a buffer cut into lines.
    pub open spec fn bytes(self, buffer: LineState, bytes: Seq<u8>) -> Progress {
        let (b, raw) = buffer.push(bytes);
        let p = self.lines(sse::decoded(raw));
        if b.exceeded {
            Progress { chunks: p.chunks.push(Chunk::Error(sse::overflow_text(b.max))), ..p }
        } else {
            p
        }
    }

    /// The end of a response: the line that is left, then what `finish` lets go.
    pub open spec fn finish_all(self, buffer: LineState) -> Progress {
        if buffer.pending.len() > 0 {
            self.line(sse::lossy(buffer.pending)).finish()
        } else {
            self.finish()
        }
    }

    /// The end of a response: a complete XML tool call, what was held back, pending
    /// text, and the calls that were never handed out.
    pub open spec fn finish(self) -> Progress {
        let id = "flush"@;
        let a = if text::has(self.state.xml, "<minimax:tool_call>"@) {
            Progress {
                state: Mini { xml: xml_rest(self.state.xml), ..self.state },
                chunks: self.chunks + xml_chunks(self.state.xml, id),
            }
        } else {
            self
        };
        let b = (Progress {
            state: carry_released(a.state, id),
            chunks: a.chunks + carry_chunks(a.state, id),
        }).flush(id);
        Progress {
            state: Mini { calls: calls::handed_out(b.state.calls), ..b.state },
            chunks: b.chunks + calls::ready_chunks(b.state.calls, None),
        }
    }
}

/// The arguments after a fragment: one of white space, or a first one that does not
/// begin a JSON value, is dropped.
pub open spec fn grown_args(args: Seq<char>, a: Seq<char>) -> Seq<char> {
    if text::trimmed(a).len() == 0 {
        args
    } else if args.len() == 0 && !text::begins(a, "{"@) && !text::begins(a, "["@)
        && !text::begins(a, "\""@) {
        args
    } else {
        tool_args::appended(args, a)
    }
}

/// The calls after a fragment. A new id under an index starts the call over.
pub open spec fn with_part(table: Seq<Call>, p: ToolPart) -> Seq<Call> {
    let a = match p.id {
        None => table,
        Some(id) => {
            let c = calls::call_at(table, p.index);
            if c.id != id && c.id.len() > 0 {
                calls::with_call(
                    table,
                    Call { id, name: Seq::empty(), arguments: Seq::empty(), ..c },
                )
            } else {
                calls::with_call(table, Call { id, ..c })
            }
        },
    };
    match p.function {
        None => a,
        Some(f) => {
            let c = calls::call_at(a, p.index);
            calls::with_call(
                a,
                Call {
                    name: match f.name {
                        Some(n) => n,
                        None => c.name,
                    },
                    arguments: match f.arguments {
                        Some(t) => grown_args(c.arguments, t),
                        None => c.arguments,
                    },
                    ..c
                },
            )
        },
    }
}

/// The token counts of an event as a chunk shows them.
pub open spec fn usage_value(u: MinimaxUsage, stop: Option<Seq<char>>, id: Seq<char>) -> Usage {
    let cached = match u.cached_tokens {
        Some(n) => n,
        None => 0,
    };
    Usage {
        input_tokens: if u.prompt_tokens >= cached {
            (u.prompt_tokens - cached) as u32
        } else {
            0
        },
        output_tokens: u.completion_tokens,
        cache_write_tokens: u.cache_miss_tokens,
        cache_read_tokens: u.cached_tokens,
        reasoning_tokens: None,
        thoughts_token_count: None,
        total_cost: None,
        stop_reason: stop,
        id: Some(id),
    }
}

/// The event of a line that was trimmed.
pub open spec fn line_event(l: Seq<char>) -> Option<Event> {
    match stream_events::payload(l) {
        Some(d) => match json::parsed(d) {
            Some(t) => event_of(t),
            None => None,
        },
        None => None,
    }
}

/// The report of a line that is no event: its first 200 characters.
pub open spec fn parse_failure(l: Seq<char>) -> Seq<char> {
    let d = match stream_events::payload(l) {
        Some(d) => d,
        None => Seq::empty(),
    };
    "MiniMax SSE parse failure: "@ + (if d.len() > 200 {
        d.take(200)
    } else {
        d
    })
}

/// The state and the chunks of a response so far.
pub open spec fn progress(s: Mini, out: Seq<ApiStreamChunk>) -> Progress {
    Progress { state: s, chunks: types::chunks(out) }
}

/// A fragment keeps the table in order and within the size limit.
pub proof fn law_part_keeps_order(table: Seq<Call>, p: ToolPart)
    requires
        calls::in_order(table),
    ensures
        calls::in_order(with_part(table, p)),
{
    let c = calls::call_at(table, p.index);
    calls::lemma_rank(table, p.index);
    assert(text::byte_len(c.arguments) <= types::MAX_TOOL_ARGUMENT_SIZE);
    let a = match p.id {
        None => table,
        Some(id) => {
            if c.id != id && c.id.len() > 0 {
                let n = Call { id, name: Seq::empty(), arguments: Seq::empty(), ..c };
                calls::law_with_call(table, n);
                calls::with_call(table, n)
            } else {
                let n = Call { id, ..c };
                calls::law_with_call(table, n);
                calls::with_call(table, n)
            }
        },
    };
    if let Some(f) = p.function {
        let d = calls::call_at(a, p.index);
        calls::lemma_rank(a, p.index);
        if let Some(t) = f.arguments {
            tool_args::law_arguments_stay_within_limit(d.arguments, t);
        }
        calls::law_with_call(
            a,
            Call {
                name: match f.name {
                    Some(n) => n,
                    None => d.name,
                },
                arguments: match f.arguments {
                    Some(t) => grown_args(d.arguments, t),
                    None => d.arguments,
                },
                ..d
            },
        );
    }
}

fn grow_args(args: &mut String, a: &str)
    ensures
        final(args)@ == grown_args(old(args)@, a@),
{
    let t = text::trim(a);
    if t.as_str().is_empty() {
        return;
    }
    if args.as_str().is_empty() && !text::starts_with(a, "{") && !text::starts_with(a, "[")
        && !text::starts_with(a, "\"") {
        return;
    }
    tool_args::append_args(args, a);
}

/// Takes a fragment into the table of calls.
fn add_part(table: &mut CallTable, p: &ToolDelta)
    ensures
        final(table)@ == with_part(old(table)@, p@),
{
    if let Some(id) = &p.id {
        let mut c = table.copy_of(p.index);
        if !text::same(c.id.as_str(), id.as_str()) && !c.id.as_str().is_empty() {
            c.name = String::new();
            c.arguments = String::new();
        }
        c.id = id.clone();
        table.put(c);
    }
    if let Some(f) = &p.function {
        let mut c = table.copy_of(p.index);
        if let Some(n) = &f.name {
            c.name = n.clone();
        }
        if let Some(a) = &f.arguments {
            grow_args(&mut c.arguments, a.as_str());
        }
        table.put(c);
    }
}

fn take_content(
    s: &mut MinimaxStreamState,
    content: &str,
    event_id: &str,
    out: &mut Vec<ApiStreamChunk>,
)
    ensures
        progress(final(s)@, final(out)@) == progress(old(s)@, old(out)@).content(
            content@,
            event_id@,
        ),
{
    if text::contains(content, "<minimax:tool_call>") || !s.xml_buffer.as_str().is_empty() {
        flush_minimax_text_buffer(s, event_id, out);
        let have: usize = text::byte_count(s.xml_buffer.as_str());
        let more: usize = text::byte_count(content);
        if have <= MAX_XML_TOOL_CALL_BUFFER && more <= MAX_XML_TOOL_CALL_BUFFER - have {
            text::push_text(&mut s.xml_buffer, content);
        } else {
            s.xml_buffer = String::new();
        }
        extract_and_emit_xml_tool_calls(&mut s.xml_buffer, event_id, out);
    } else {
        process_minimax_content_delta(s, event_id, content, out);
    }
}

/// Takes an event in.
pub fn process_minimax_event(
    s: &mut MinimaxStreamState,
    event: &MinimaxEvent,
    out: &mut Vec<ApiStreamChunk>,
)
    ensures
        progress(final(s)@, final(out)@) == progress(old(s)@, old(out)@).event(event@),
{
    let id = event.id.as_str();
    let ghost start = progress(s@, out@);
    if let Some(c) = &event.choice {
        if let Some(r) = &c.reasoning_content {
            flush_minimax_text_buffer(s, id, out);
            emit_minimax_reasoning(s, id, r.clone(), out);
        }
        let ghost a = progress(s@, out@);
        let ghost details = text::texts(c.reasoning_details@);
        let mut i: usize = 0;
        assert(details.take(0) =~= Seq::empty());
        while i < c.reasoning_details.len()
            invariant
                i <= c.reasoning_details@.len(),
                id@ == event.id@,
                details == text::texts(c.reasoning_details@),
                progress(s@, out@) == a.reason_all(details.take(i as int), id@),
            decreases c.reasoning_details@.len() - i,
        {
            proof {
                assert(details.take(i + 1).drop_last() =~= details.take(i as int));
                assert(details.take(i + 1).last() == c.reasoning_details@[i as int]@);
            }
            flush_minimax_text_buffer(s, id, out);
            emit_minimax_reasoning(s, id, c.reasoning_details[i].clone(), out);
            i = i + 1;
        }
        assert(details.take(i as int) =~= details);
        if let Some(t) = &c.content {
            take_content(s, t.as_str(), id, out);
        }
        let ghost d = progress(s@, out@);
        let ghost parts = stream_events::tool_parts(c.tool_calls@);
        let mut k: usize = 0;
        assert(parts.take(0) =~= Seq::empty());
        while k < c.tool_calls.len()
            invariant
                k <= c.tool_calls@.len(),
                parts == stream_events::tool_parts(c.tool_calls@),
                progress(s@, out@) == d.tools(parts.take(k as int), id@),
            decreases c.tool_calls@.len() - k,
        {
            proof {
                assert(parts.take(k + 1).drop_last() =~= parts.take(k as int));
                assert(parts.take(k + 1).last() == c.tool_calls@[k as int]@);
            }
            let completed = match s.calls.get(c.tool_calls[k].index) {
                Some(call) => call.completed,
                None => false,
            };
            if !completed {
                flush_minimax_text_buffer(s, id, out);
                add_part(&mut s.calls, &c.tool_calls[k]);
            }
            k = k + 1;
        }
        assert(parts.take(k as int) =~= parts);
        if let Some(f) = &c.finish_reason {
            if text::same(f.as_str(), "tool_calls") || text::same(f.as_str(), "tool_call") {
                flush_minimax_text_buffer(s, id, out);
                s.calls.emit_ready(&Some(event.id.clone()), out);
            }
            s.last_stop_reason = Some(f.clone());
        }
        assert(progress(s@, out@) == start.choice(c@, id@));
    }
    if let Some(u) = &event.usage {
        let cached: u32 = match u.cached_tokens {
            Some(n) => n,
            None => 0,
        };
        let stop_reason = match &event.choice {
            Some(c) => text::copy_opt(&c.finish_reason),
            None => None,
        };
        types::emit(
            out,
            ApiStreamChunk::Usage(
                ApiStreamUsageChunk {
                    input_tokens: u.prompt_tokens.saturating_sub(cached),
                    output_tokens: u.completion_tokens,
                    cache_write_tokens: u.cache_miss_tokens,
                    cache_read_tokens: u.cached_tokens,
                    reasoning_tokens: None,
                    thoughts_token_count: None,
                    total_cost: None,
                    stop_reason,
                    id: Some(event.id.clone()),
                },
            ),
        );
    }
}

/// Takes a line of the response in.
pub fn process_minimax_sse_line(
    line: &str,
    s: &mut MinimaxStreamState,
    out: &mut Vec<ApiStreamChunk>,
)
    ensures
        progress(final(s)@, final(out)@) == progress(old(s)@, old(out)@).line(line@),
{
    let l = text::trim(line);
    if l.as_str().is_empty() || text::same(l.as_str(), "data: [DONE]") || text::same(
        l.as_str(),
        "[DONE]",
    ) {
        return;
    }
    let data = stream_events::line_payload(l.as_str());
    if let Some(d) = &data {
        if let Some(j) = json::parse(d.as_str()) {
            if let Some(e) = read_minimax_event(&j) {
                process_minimax_event(s, &e, out);
                return;
            }
        }
    }
    let d = match data {
        Some(d) => d,
        None => String::new(),
    };
    let v = text::chars_of(d.as_str());
    let shown = if v.len() > 200 {
        text::substring(&v, 0, 200)
    } else {
        d
    };
    assert(v@.len() > 200 ==> shown@ =~= v@.take(200));
    let mut message = "MiniMax SSE parse failure: ".to_owned();
    text::push_text(&mut message, shown.as_str());
    assert(message@ =~= parse_failure(l@));
    types::emit_error(out, message.as_str());
}

/// Takes lines of the response in, in order.
fn take_lines(lines: &Vec<String>, s: &mut MinimaxStreamState, out: &mut Vec<ApiStreamChunk>)
    ensures
        progress(final(s)@, final(out)@) == progress(old(s)@, old(out)@).lines(
            text::texts(lines@),
        ),
{
    let ghost start = progress(s@, out@);
    let ghost ts = text::texts(lines@);
    let mut i: usize = 0;
    assert(ts.take(0) =~= Seq::empty());
    while i < lines.len()
        invariant
            i <= lines@.len(),
            ts == text::texts(lines@),
            progress(s@, out@) == start.lines(ts.take(i as int)),
        decreases lines@.len() - i,
    {
        proof {
            assert(ts.take(i + 1).drop_last() =~= ts.take(i as int));
            assert(ts.take(i + 1).last() == lines@[i as int]@);
        }
        process_minimax_sse_line(lines[i].as_str(), s, out);
        i = i + 1;
    }
    assert(ts.take(i as int) =~= ts);
}

/// Takes bytes of the response in: every line that they complete, and the report of
/// a line that grew too long.
pub fn take_minimax_bytes(
    buffer: &mut SseLineBuffer,
    s: &mut MinimaxStreamState,
    bytes: &[u8],
    out: &mut Vec<ApiStreamChunk>,
)
    ensures
        final(buffer)@ == sse::buffer_after(old(buffer)@, bytes@),
        progress(final(s)@, final(out)@) == progress(old(s)@, old(out)@).bytes(
            old(buffer)@,
            bytes@,
        ),
{
    let lines = buffer.push_chunk(bytes);
    take_lines(&lines, s, out);
    if let Some(e) = buffer.take_error() {
        types::emit_error(out, e.as_str());
    }
}

/// Ends the response: the line that is left, and what was held back.
pub fn finish_minimax_stream(
    buffer: &mut SseLineBuffer,
    s: &mut MinimaxStreamState,
    out: &mut Vec<ApiStreamChunk>,
)
    ensures
        final(buffer)@ == sse::emptied(old(buffer)@),
        progress(final(s)@, final(out)@) == progress(old(s)@, old(out)@).finish_all(old(buffer)@),
{
    if let Some(line) = buffer.finish() {
        process_minimax_sse_line(line.as_str(), s, out);
    }
    if text::contains(s.xml_buffer.as_str(), "<minimax:tool_call>") {
        extract_and_emit_xml_tool_calls(&mut s.xml_buffer, "flush", out);
    }
    flush_minimax_tag_carry(s, "flush", out);
    flush_minimax_text_buffer(s, "flush", out);
    s.calls.emit_ready(&None, out);
}

/// The report of a transfer that broke off.
pub fn minimax_stream_error(error: &str) -> (r: String)
    ensures
        r@ == sse::broken_off("MiniMax SSE stream error: "@, error@),
{
    sse::stream_error("MiniMax SSE stream error: ", error)
}

} // verus!
