//! What the line buffer is for: every line comes out as it was sent, and reaches the
//! response that it belongs to.

use crate::providers::anthropic_stream;
use crate::providers::gemini_stream;
use crate::providers::minimax_stream;
use crate::providers::openai_stream;
use crate::providers::sse;
use crate::providers::sse::LineState;
use crate::providers::types::{CompatModel, Model};
use crate::text;
use vstd::prelude::*;

verus! {

/// Bytes of one line: no line feed in them.
pub open spec fn is_line(l: Seq<u8>) -> bool {
    forall|j: int| 0 <= j < l.len() ==> l[j] != 10u8
}

/// The buffer takes lines as they come.
pub open spec fn is_ready(s: LineState) -> bool {
    is_line(s.pending) && !s.exceeded && !s.skipping
}

/// A line comes out once its line feed is there, whole, with what was there of it before,
/// and without the carriage return at its end; then the buffer holds nothing.
pub proof fn law_line_comes_out(s: LineState, l: Seq<u8>)
    requires
        is_ready(s),
        is_line(l),
        s.pending.len() + l.len() + 1 < s.max,
    ensures
        ({
            let (after, lines) = s.push(l + seq![10u8]);
            let whole = s.pending + l;
            &&& lines.len() == 1
            &&& whole.len() > 0 && whole.last() == 13u8 ==> lines[0] == whole.drop_last()
            &&& whole.len() == 0 || whole.last() != 13u8 ==> lines[0] == whole
            &&& after == (LineState { pending: Seq::empty(), ..s })
        }),
{
    let whole = s.pending + l;
    let p = s.pending + (l + seq![10u8]);
    assert(p.drop_last() =~= whole);
    assert(p.last() == 10u8);
    sse::lemma_no_feed(whole);
    assert(s.push(l + seq![10u8]).1 =~= seq![sse::without_cr(whole)]);
}

/// Bytes without a line feed wait, after those that wait already.
pub proof fn law_unfinished_bytes_wait(s: LineState, l: Seq<u8>)
    requires
        is_ready(s),
        is_line(l),
        s.pending.len() + l.len() < s.max,
    ensures
        s.push(l).1 == Seq::<Seq<u8>>::empty(),
        s.push(l).0 == (LineState { pending: s.pending + l, ..s }),
{
    sse::lemma_no_feed(s.pending + l);
}

/// What follows a line is read after it, as if it had come by itself.
pub proof fn law_lines_come_out_in_order(s: LineState, l: Seq<u8>, rest: Seq<u8>)
    requires
        is_ready(s),
        is_line(l),
        s.pending.len() + l.len() + 1 + rest.len() < s.max,
    ensures
        ({
            let whole = s.pending + l;
            let line = if whole.len() > 0 && whole.last() == 13u8 {
                whole.drop_last()
            } else {
                whole
            };
            let then = (LineState { pending: Seq::empty(), ..s }).push(rest);
            s.push(l + seq![10u8] + rest) == (then.0, seq![line] + then.1)
        }),
{
    sse::lemma_no_feed(s.pending);
    sse::law_split_does_not_matter(s, l + seq![10u8], rest);
    law_line_comes_out(s, l);
    let whole = s.pending + l;
    let line = if whole.len() > 0 && whole.last() == 13u8 {
        whole.drop_last()
    } else {
        whole
    };
    assert(s.push(l + seq![10u8]).1 =~= seq![line]);
}

/// A line that reaches the limit is given up: no part of it comes out, nothing of it is
/// kept, and the overflow is noted.
pub proof fn law_long_line_is_given_up(s: LineState, l: Seq<u8>)
    requires
        is_ready(s),
        is_line(l),
        s.pending.len() + l.len() >= s.max,
    ensures
        s.push(l).1 == Seq::<Seq<u8>>::empty(),
        s.push(l).0 == (LineState { pending: Seq::empty(), exceeded: true, ..s }),
{
    sse::lemma_no_feed(s.pending + l);
    assert(sse::nonempty(Seq::<Seq<u8>>::empty()) =~= Seq::empty());
}

/// A line of a response, with its line feed.
pub open spec fn sent(l: Seq<u8>) -> Seq<u8> {
    l + seq![10u8]
}

/// A line that fits reaches its response, whatever the provider, with the line that was
/// unfinished before at its front.
pub proof fn law_lines_reach_the_response(
    s: LineState,
    l: Seq<u8>,
    gemini: gemini_stream::Progress,
    m: Option<Model>,
    openai: openai_stream::Progress,
    c: Option<CompatModel>,
    room: usize,
    anthropic: anthropic_stream::Progress,
    minimax: minimax_stream::Progress,
)
    requires
        is_ready(s),
        is_line(l),
        l.len() > 0,
        l.last() != 13u8,
        s.pending.len() + l.len() + 1 < s.max,
    ensures
        ({
            let line = sse::lossy(s.pending + l);
            &&& gemini.bytes(s, sent(l), m) == gemini.line(line, m)
            &&& openai.bytes(s, sent(l), c, room) == openai.line(line, c, room)
            &&& anthropic.bytes(s, sent(l)) == anthropic.line(line)
            &&& minimax.bytes(s, sent(l)) == minimax.line(line)
        }),
{
    law_line_comes_out(s, l);
    let whole = s.pending + l;
    assert(whole.last() == l.last());
    let lines = s.push(sent(l)).1;
    let texts = sse::decoded(lines);
    assert(texts =~= seq![sse::lossy(whole)]);
    assert(texts.drop_last() =~= Seq::<Seq<char>>::empty());
    assert(texts.last() == sse::lossy(whole));
    assert(gemini.lines(Seq::empty(), m) == gemini);
    assert(openai.lines(Seq::empty(), c, room) == openai);
    assert(anthropic.lines(Seq::empty()) == anthropic);
    assert(minimax.lines(Seq::empty()) == minimax);
}

/// A report of a transfer that broke off says what was going on and what went wrong, and
/// that trying again may help where the message speaks of a timeout, the connection, an
/// incomplete reply or one that cannot be decoded.
pub proof fn law_broken_transfers_are_told(prefix: Seq<char>, error: Seq<char>)
    ensures
        ({
            let r = sse::broken_off(prefix, error);
            let again = text::has(error, "timeout"@) || text::has(error, "connection"@)
                || text::has(error, "incomplete"@) || text::has(error, "decode"@);
            &&& again ==> r == prefix + error + " (retryable)"@
            &&& !again ==> r == prefix + error
        }),
{
    assert(prefix + error + Seq::<char>::empty() =~= prefix + error);
}

// ---------------------------------------------------------------------------
// Tool names
// ---------------------------------------------------------------------------

/// A name of letters, digits, `_` and `-` is handed on as it is, and is safe.
pub proof fn law_safe_names_stay(name: Seq<char>)
    requires
        name.len() > 0,
        forall|i: int|
            0 <= i < name.len() ==> {
                let c = #[trigger] name[i];
                ('a' <= c <= 'z') || ('A' <= c <= 'Z') || ('0' <= c <= '9') || c == '_' || c == '-'
            },
    ensures
        openai_stream::is_safe_name(name),
        openai_stream::plain_name(name) == name,
{
    let sep = openai_stream::qwen_separator();
    reveal_strlit("\n</think>\n\n<tool_call>\n<function=");
    text::lemma_find_from(name, sep, 0);
    if let Some(i) = text::find_from(name, sep, 0) {
        assert(name.subrange(i, i + sep.len())[0] == sep[0]);
        assert(name[i] == '\n');
    }
}

/// A name with any other character is not safe, nor is an empty one.
pub proof fn law_other_names_are_refused(name: Seq<char>, i: int)
    requires
        name.len() == 0 || (0 <= i < name.len() && !(('a' <= name[i] <= 'z') || ('A' <= name[i]
            <= 'Z') || ('0' <= name[i] <= '9') || name[i] == '_' || name[i] == '-')),
    ensures
        !openai_stream::is_safe_name(name),
{
    if name.len() > 0 {
        assert(!openai_stream::is_name_char(name[i]));
    }
}

} // verus!
