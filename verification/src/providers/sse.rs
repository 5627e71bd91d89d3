//! Reassembly of server-sent-event lines from the byte chunks of a response.

use crate::text;
use vstd::prelude::*;

verus! {

/// Longest line that a buffer accepts by default: 1MB.
pub const DEFAULT_MAX_LINE_LENGTH: usize = 1048576;

/// Buffers SSE bytes until complete newline-delimited lines are available.
#[derive(Debug)]
pub struct SseLineBuffer {
    pending: Vec<u8>,
    max_line_length: usize,
    limit_exceeded: bool,
    /// Set by `take_error()` when the overflow error was consumed, so the next
    /// `push_chunk` call can skip the trailing newline of the overflowed line.
    skip_next_newline: bool,
}

/// The mathematical value of a line buffer: the bytes of the line that is still
/// incomplete, and whether the rest of an oversized line is being discarded,
/// before (`exceeded`) or after (`skipping`) the overflow was reported.
pub struct LineState {
    pub pending: Seq<u8>,
    pub max: nat,
    pub exceeded: bool,
    pub skipping: bool,
}

/// The bytes of the complete lines of `p`, without their line ends: a line feed
/// and the carriage return before it.
pub open spec fn complete_lines(p: Seq<u8>) -> Seq<Seq<u8>>
    decreases p.len(),
{
    if p.len() == 0 {
        Seq::empty()
    } else if p.last() == 10u8 {
        complete_lines(p.drop_last()).push(without_cr(unfinished(p.drop_last())))
    } else {
        complete_lines(p.drop_last())
    }
}

/// The bytes after the last line feed of `p`.
pub open spec fn unfinished(p: Seq<u8>) -> Seq<u8>
    decreases p.len(),
{
    if p.len() == 0 || p.last() == 10u8 {
        Seq::empty()
    } else {
        unfinished(p.drop_last()).push(p.last())
    }
}

/// A line without the carriage return at its end.
pub open spec fn without_cr(l: Seq<u8>) -> Seq<u8> {
    if l.len() > 0 && l.last() == 13u8 {
        l.drop_last()
    } else {
        l
    }
}

/// The position of the first line feed.
pub open spec fn first_feed(p: Seq<u8>) -> Option<int>
    decreases p.len(),
{
    if p.len() == 0 {
        None
    } else {
        match first_feed(p.drop_last()) {
            Some(i) => Some(i),
            None => if p.last() == 10u8 {
                Some(p.len() - 1)
            } else {
                None
            },
        }
    }
}

/// The lines of `lines` that are not empty, in order.
pub open spec fn nonempty(lines: Seq<Seq<u8>>) -> Seq<Seq<u8>>
    decreases lines.len(),
{
    if lines.len() == 0 {
        Seq::empty()
    } else if lines.last().len() == 0 {
        nonempty(lines.drop_last())
    } else {
        nonempty(lines.drop_last()).push(lines.last())
    }
}

impl LineState {
    /// The state and the lines after a chunk. While an oversized line is being
    /// discarded, everything up to its line feed is dropped. Else the chunk
    /// continues the pending line. Below the limit every complete line comes out.
    /// At the limit the complete lines that are not empty are salvaged, and if
    /// what is left still reaches the limit it is dropped and the overflow noted.
    pub open spec fn push(self, chunk: Seq<u8>) -> (LineState, Seq<Seq<u8>>)
        decreases chunk.len(), (self.exceeded as nat) + (self.skipping as nat),
    {
        if self.skipping || self.exceeded {
            let cleared = if self.skipping {
                LineState { skipping: false, ..self }
            } else {
                LineState { exceeded: false, ..self }
            };
            match first_feed(chunk) {
                Some(i) => if 0 <= i && i + 1 < chunk.len() {
                    cleared.push(chunk.skip(i + 1))
                } else {
                    (cleared, Seq::empty())
                },
                None => (self, Seq::empty()),
            }
        } else {
            let p = self.pending + chunk;
            if p.len() >= self.max {
                if first_feed(p) is None || unfinished(p).len() >= self.max {
                    (
                        LineState { pending: Seq::empty(), exceeded: true, ..self },
                        nonempty(complete_lines(p)),
                    )
                } else {
                    (LineState { pending: unfinished(p), ..self }, nonempty(complete_lines(p)))
                }
            } else {
                (LineState { pending: unfinished(p), ..self }, complete_lines(p))
            }
        }
    }

    /// What holds of every buffer: the pending bytes hold no line feed, and they
    /// stay below the limit.
    pub open spec fn valid(self) -> bool {
        &&& first_feed(self.pending) is None
        &&& self.pending.len() < self.max || self.pending.len() == 0
    }
}

/// The state of a line buffer after bytes, with an overflow reported.
pub open spec fn buffer_after(buffer: LineState, bytes: Seq<u8>) -> LineState {
    let b = buffer.push(bytes).0;
    if b.exceeded {
        LineState { exceeded: false, skipping: true, ..b }
    } else {
        b
    }
}

/// The state of a line buffer after the line that was left was taken out.
pub open spec fn emptied(buffer: LineState) -> LineState {
    LineState { pending: Seq::empty(), ..buffer }
}

/// The text of a line of bytes.
pub open spec fn line_text(l: Seq<u8>) -> Seq<char> {
    if l.len() == 0 {
        Seq::empty()
    } else {
        lossy(l)
    }
}

/// The texts of lines of bytes.
pub open spec fn decoded(lines: Seq<Seq<u8>>) -> Seq<Seq<char>> {
    lines.map_values(|l: Seq<u8>| line_text(l))
}

/// What `String::from_utf8_lossy` makes of bytes: the text, with the
/// replacement character for each ill-formed part.
pub uninterp spec fn lossy(bytes: Seq<u8>) -> Seq<char>;

/// Calls `String::from_utf8_lossy`. The text is a function of the bytes alone,
/// and of well-formed UTF-8 it is what the bytes encode.
#[verifier::external_body]
pub(crate) fn text_of_bytes(bytes: &[u8]) -> (r: String)
    ensures
        r@ == lossy(bytes@),
        vstd::utf8::valid_utf8(bytes@) ==> r@ == vstd::utf8::decode_utf8(bytes@),
{
    String::from_utf8_lossy(bytes).into_owned()
}

// ---------------------------------------------------------------------------
// Facts about lines
// ---------------------------------------------------------------------------

/// `first_feed` is the first line feed, and absent exactly when there is none.
pub proof fn lemma_first_feed(p: Seq<u8>)
    ensures
        first_feed(p) matches Some(i) ==> 0 <= i < p.len() && p[i] == 10u8 && forall|j: int|
            0 <= j < i ==> p[j] != 10u8,
        first_feed(p) is None ==> forall|j: int| 0 <= j < p.len() ==> p[j] != 10u8,
    decreases p.len(),
{
    if p.len() > 0 {
        lemma_first_feed(p.drop_last());
        let q = p.drop_last();
        assert(forall|j: int| 0 <= j < q.len() ==> q[j] == p[j]);
        if first_feed(p) is None {
            assert forall|j: int| 0 <= j < p.len() implies p[j] != 10u8 by {
                if j < q.len() {
                    assert(q[j] != 10u8);
                }
            }
        }
    }
}

/// Bytes without a line feed complete no line and are unfinished as a whole.
pub proof fn lemma_no_feed(p: Seq<u8>)
    requires
        forall|j: int| 0 <= j < p.len() ==> p[j] != 10u8,
    ensures
        complete_lines(p) == Seq::<Seq<u8>>::empty(),
        unfinished(p) == p,
        first_feed(p) is None,
    decreases p.len(),
{
    if p.len() > 0 {
        lemma_no_feed(p.drop_last());
        assert(p.drop_last().push(p.last()) =~= p);
    }
}

/// The unfinished bytes hold no line feed and are no longer than the whole.
pub proof fn lemma_unfinished(p: Seq<u8>)
    ensures
        forall|j: int| 0 <= j < unfinished(p).len() ==> unfinished(p)[j] != 10u8,
        unfinished(p).len() <= p.len(),
        first_feed(unfinished(p)) is None,
    decreases p.len(),
{
    if p.len() > 0 && p.last() != 10u8 {
        lemma_unfinished(p.drop_last());
    }
    lemma_no_feed(unfinished(p));
}

/// Cutting lines out of `a` first and then out of what it left together with `b`
/// gives the lines of both.
pub proof fn lemma_lines_split(a: Seq<u8>, b: Seq<u8>)
    ensures
        complete_lines(a + b) == complete_lines(a) + complete_lines(unfinished(a) + b),
        unfinished(a + b) == unfinished(unfinished(a) + b),
    decreases b.len(),
{
    if b.len() == 0 {
        assert(a + b =~= a);
        assert(unfinished(a) + b =~= unfinished(a));
        lemma_unfinished(a);
        lemma_no_feed(unfinished(a));
        assert(complete_lines(a) + Seq::<Seq<u8>>::empty() =~= complete_lines(a));
    } else {
        lemma_lines_split(a, b.drop_last());
        assert((a + b).drop_last() =~= a + b.drop_last());
        assert((unfinished(a) + b).drop_last() =~= unfinished(a) + b.drop_last());
        assert((a + b).last() == b.last());
        assert((unfinished(a) + b).last() == b.last());
        if b.last() == 10u8 {
            let l = without_cr(unfinished(a + b.drop_last()));
            assert(complete_lines(a) + complete_lines(unfinished(a) + b.drop_last()).push(l)
                =~= (complete_lines(a) + complete_lines(unfinished(a) + b.drop_last())).push(l));
        }
    }
}

/// However the bytes of a response are split into two chunks, the same lines come
/// out, as long as the bytes stay below the limit and no oversized line is being
/// discarded.
pub proof fn law_split_does_not_matter(s: LineState, a: Seq<u8>, b: Seq<u8>)
    requires
        s.valid(),
        !s.exceeded,
        !s.skipping,
        s.pending.len() + a.len() + b.len() < s.max,
    ensures
        s.push(a).0.push(b).0 == s.push(a + b).0,
        s.push(a).1 + s.push(a).0.push(b).1 == s.push(a + b).1,
{
    let p = s.pending + a;
    lemma_lines_split(p, b);
    lemma_unfinished(p);
    assert(s.pending + (a + b) =~= p + b);
}

proof fn lemma_nonempty_add(a: Seq<Seq<u8>>, b: Seq<Seq<u8>>)
    ensures
        nonempty(a + b) == nonempty(a) + nonempty(b),
    decreases b.len(),
{
    if b.len() == 0 {
        assert(a + b =~= a);
        assert(nonempty(a) + nonempty(b) =~= nonempty(a));
    } else {
        lemma_nonempty_add(a, b.drop_last());
        assert((a + b).drop_last() =~= a + b.drop_last());
        assert((a + b).last() == b.last());
        assert(nonempty(a + b) =~= nonempty(a) + nonempty(b));
    }
}

proof fn lemma_nonempty_again(a: Seq<Seq<u8>>)
    ensures
        nonempty(nonempty(a)) == nonempty(a),
    decreases a.len(),
{
    if a.len() > 0 {
        lemma_nonempty_again(a.drop_last());
        if a.last().len() > 0 {
            let n = nonempty(a.drop_last());
            assert(n.push(a.last()).drop_last() =~= n);
        }
    }
}

/// What a chunk does where no oversized line is being discarded.
proof fn lemma_push(s: LineState, chunk: Seq<u8>)
    requires
        !s.exceeded,
        !s.skipping,
    ensures
        ({
            let p = s.pending + chunk;
            &&& nonempty(s.push(chunk).1) == nonempty(complete_lines(p))
            &&& s.push(chunk).0 == (if unfinished(p).len() >= s.max {
                LineState { pending: Seq::empty(), exceeded: true, ..s }
            } else {
                LineState { pending: unfinished(p), ..s }
            })
        }),
{
    let p = s.pending + chunk;
    lemma_unfinished(p);
    lemma_nonempty_again(complete_lines(p));
    lemma_first_feed(p);
    if first_feed(p) is None {
        lemma_no_feed(p);
    }
}

proof fn lemma_cut_line(s: LineState, a: Seq<u8>, b: Seq<u8>)
    requires
        !s.exceeded,
        !s.skipping,
        s.push(a).0.exceeded ==> first_feed(b) is None,
    ensures
        cut_fits(s, a, b),
{
    let p = s.pending + a;
    lemma_push(s, a);
    lemma_push(s, a + b);
    assert(s.pending + (a + b) =~= p + b);
    lemma_lines_split(p, b);
    lemma_nonempty_add(complete_lines(p), complete_lines(unfinished(p) + b));
    let t = buffer_after(s, a);
    if s.push(a).0.exceeded {
        lemma_first_feed(b);
        lemma_unfinished(p);
        let q = unfinished(p) + b;
        assert forall|j: int| 0 <= j < q.len() implies q[j] != 10u8 by {
            if j >= unfinished(p).len() {
                assert(q[j] == b[j - unfinished(p).len()]);
            }
        }
        lemma_no_feed(q);
        assert(t.push(b) == (t, Seq::<Seq<u8>>::empty()));
    } else {
        lemma_push(t, b);
    }
}

/// Two chunks one after the other do what both do as one: they leave the same state,
/// the same lines that are not empty come out, and an overflow is reported once, after
/// them.
pub open spec fn cut_fits(s: LineState, a: Seq<u8>, b: Seq<u8>) -> bool {
    let t = buffer_after(s, a);
    &&& buffer_after(t, b) == buffer_after(s, a + b)
    &&& nonempty(s.push(a).1) + nonempty(t.push(b).1) == nonempty(s.push(a + b).1)
    &&& s.push(a + b).0.exceeded == (s.push(a).0.exceeded || t.push(b).0.exceeded)
    &&& s.push(a).0.exceeded ==> t.push(b) == (t, Seq::<Seq<u8>>::empty())
    &&& s.push(a + b).0.max == s.push(a).0.max == t.push(b).0.max
}

/// However bytes are cut into two chunks, the same lines come out but for empty ones, and
/// an oversized line is reported all the same. Only where the first chunk overflows must
/// its line not end in the second: as one chunk, it would not have overflowed.
pub proof fn law_cuts_do_not_matter(s: LineState, a: Seq<u8>, b: Seq<u8>)
    requires
        s.valid(),
        !s.exceeded,
        s.max > 0,
        s.push(a).0.exceeded ==> first_feed(b) is None,
    ensures
        cut_fits(s, a, b),
{
    if s.skipping {
        let cleared = LineState { skipping: false, ..s };
        lemma_first_feed(a);
        lemma_first_feed(b);
        lemma_first_feed(a + b);
        match first_feed(a) {
            Some(i) => {
                assert((a + b)[i] == a[i]);
                assert(first_feed(a + b) == Some(i)) by {
                    let k = first_feed(a + b)->0;
                    if k < i {
                        assert((a + b)[k] == a[k]);
                    } else if i < k {
                        assert((a + b)[i] != 10u8);
                    }
                }
                assert((a + b).skip(i + 1) =~= a.skip(i + 1) + b);
                if i + 1 < a.len() {
                    lemma_cut_line(cleared, a.skip(i + 1), b);
                } else {
                    assert(a.skip(i + 1) + b =~= b);
                    lemma_push(cleared, b);
                    lemma_push_nothing(cleared, b);
                    assert(nonempty(Seq::empty()) + nonempty(cleared.push(b).1) =~= nonempty(
                        cleared.push(b).1,
                    ));
                }
            },
            None => {
                match first_feed(b) {
                    Some(i) => {
                        let n = a.len() + i;
                        assert((a + b)[n] == b[i]);
                        assert(first_feed(a + b) == Some(n)) by {
                            let k = first_feed(a + b)->0;
                            if k < a.len() {
                                assert((a + b)[k] == a[k]);
                            } else if k < n {
                                assert((a + b)[k] == b[k - a.len()]);
                            } else if n < k {
                                assert((a + b)[n] != 10u8);
                            }
                        }
                        assert((a + b).skip(n + 1) =~= b.skip(i + 1));
                    },
                    None => {
                        if let Some(k) = first_feed(a + b) {
                            if k < a.len() {
                                assert((a + b)[k] == a[k]);
                            } else {
                                assert((a + b)[k] == b[k - a.len()]);
                            }
                        }
                    },
                }
                law_push_keeps_valid(s, b);
                assert(nonempty(Seq::empty()) + nonempty(s.push(b).1) =~= nonempty(s.push(b).1));
            },
        }
    } else {
        lemma_cut_line(s, a, b);
    }
}

/// No bytes change nothing.
proof fn lemma_push_nothing(s: LineState, b: Seq<u8>)
    requires
        s.valid(),
        !s.exceeded,
        !s.skipping,
        s.max > 0,
    ensures
        b.len() == 0 ==> s.push(b) == (s, Seq::<Seq<u8>>::empty()),
{
    if b.len() == 0 {
        assert(s.pending + b =~= s.pending);
        lemma_first_feed(s.pending);
        lemma_no_feed(s.pending);
    }
}

/// Every chunk keeps the buffer valid and its limit as it is.
pub proof fn law_push_keeps_valid(s: LineState, chunk: Seq<u8>)
    requires
        s.valid(),
    ensures
        s.push(chunk).0.valid(),
        s.push(chunk).0.max == s.max,
    decreases chunk.len(), (s.exceeded as nat) + (s.skipping as nat),
{
    if s.skipping || s.exceeded {
        let cleared = if s.skipping {
            LineState { skipping: false, ..s }
        } else {
            LineState { exceeded: false, ..s }
        };
        match first_feed(chunk) {
            Some(i) => {
                if 0 <= i && i + 1 < chunk.len() {
                    law_push_keeps_valid(cleared, chunk.skip(i + 1));
                }
            },
            None => {},
        }
    } else {
        lemma_unfinished(s.pending + chunk);
        lemma_no_feed(Seq::<u8>::empty());
    }
}

/// After an overflow was reported, the rest of the oversized line is discarded
/// and what follows its line feed is read as if nothing had happened.
pub proof fn law_recovers_after_overflow(s: LineState, rest: Seq<u8>, next: Seq<u8>)
    requires
        s.valid(),
        s.skipping,
        !s.exceeded,
        first_feed(rest) is None,
        next.len() > 0,
    ensures
        s.push(rest + seq![10u8] + next) == (LineState { skipping: false, ..s }).push(next),
{
    let chunk = rest + seq![10u8] + next;
    lemma_first_feed(rest);
    lemma_first_feed(chunk);
    assert(chunk[rest.len() as int] == 10u8);
    assert(forall|j: int| 0 <= j < rest.len() ==> chunk[j] == rest[j]);
    match first_feed(chunk) {
        Some(i) => {
            if i < rest.len() {
                assert(chunk[i] == rest[i]);
            } else if i > rest.len() {
                assert(chunk[rest.len() as int] != 10u8);
            }
            assert(chunk.skip(i + 1) =~= next);
        },
        None => {
            assert(chunk[rest.len() as int] != 10u8);
        },
    }
}

// ---------------------------------------------------------------------------
// The buffer
// ---------------------------------------------------------------------------

impl View for SseLineBuffer {
    type V = LineState;

    closed spec fn view(&self) -> LineState {
        LineState {
            pending: self.pending@,
            max: self.max_line_length as nat,
            exceeded: self.limit_exceeded,
            skipping: self.skip_next_newline,
        }
    }
}

impl Default for SseLineBuffer {
    fn default() -> (r: Self)
        ensures
            r@ == (LineState {
                pending: Seq::empty(),
                max: DEFAULT_MAX_LINE_LENGTH as nat,
                exceeded: false,
                skipping: false,
            }),
            r@.valid(),
    {
        SseLineBuffer::with_max_line_length(DEFAULT_MAX_LINE_LENGTH)
    }
}

impl SseLineBuffer {
    /// An empty buffer with a given limit.
    pub fn with_max_line_length(max: usize) -> (r: SseLineBuffer)
        ensures
            r@ == (LineState {
                pending: Seq::empty(),
                max: max as nat,
                exceeded: false,
                skipping: false,
            }),
            r@.valid(),
    {
        let r = SseLineBuffer {
            pending: Vec::new(),
            max_line_length: max,
            limit_exceeded: false,
            skip_next_newline: false,
        };
        assert(r@.pending =~= Seq::empty());
        r
    }

    /// Push bytes into the buffer and return complete lines.
    pub fn push_chunk(&mut self, chunk: &[u8]) -> (lines: Vec<String>)
        ensures
            final(self)@ == old(self)@.push(chunk@).0,
            text::texts(lines@) == decoded(old(self)@.push(chunk@).1),
            old(self)@.valid() ==> final(self)@.valid(),
        decreases chunk@.len(), (old(self)@.exceeded as nat) + (old(self)@.skipping as nat),
    {
        proof {
            if self@.valid() {
                law_push_keeps_valid(self@, chunk@);
            }
        }
        if self.skip_next_newline || self.limit_exceeded {
            let at = feed_position(chunk);
            match at {
                Some(i) => {
                    if self.skip_next_newline {
                        self.skip_next_newline = false;
                    } else {
                        self.limit_exceeded = false;
                    }
                    if chunk.len() - i > 1 {
                        let rest = vstd::slice::slice_subrange(chunk, i + 1, chunk.len());
                        assert(rest@ =~= chunk@.skip(i + 1));
                        return self.push_chunk(rest);
                    }
                    let none: Vec<String> = Vec::new();
                    assert(text::texts(none@) =~= decoded(Seq::empty()));
                    return none;
                },
                None => {
                    let none: Vec<String> = Vec::new();
                    assert(text::texts(none@) =~= decoded(Seq::empty()));
                    return none;
                },
            }
        }
        let ghost before = self@;
        self.pending.extend_from_slice(chunk);
        let ghost p = self.pending@;
        assert(p =~= before.pending + chunk@);
        if self.pending.len() >= self.max_line_length {
            let (lines, rest) = cut(&self.pending, true);
            proof {
                lemma_first_feed(p);
                if first_feed(p) is None {
                    lemma_no_feed(p);
                }
            }
            if rest.len() >= self.max_line_length {
                self.pending = Vec::new();
                self.limit_exceeded = true;
                assert(self@.pending =~= Seq::empty());
            } else {
                self.pending = rest;
            }
            return lines;
        }
        let (lines, rest) = cut(&self.pending, false);
        self.pending = rest;
        lines
    }

    /// The text of the line that was still incomplete when the response ended.
    pub fn finish(&mut self) -> (r: Option<String>)
        ensures
            final(self)@ == emptied(old(self)@),
            old(self)@.pending.len() == 0 ==> r is None,
            old(self)@.pending.len() > 0 ==> r is Some && text::opt(r) == Some(
                lossy(old(self)@.pending),
            ),
    {
        if self.pending.is_empty() {
            assert(self@.pending =~= Seq::empty());
            None
        } else {
            let r = text_of_bytes(self.pending.as_slice());
            self.pending = Vec::new();
            assert(self@.pending =~= Seq::empty());
            Some(r)
        }
    }

    /// The report of an overflow, once; the rest of the oversized line will be
    /// skipped.
    pub fn take_error(&mut self) -> (r: Option<String>)
        ensures
            !old(self)@.exceeded ==> r is None && final(self)@ == old(self)@,
            old(self)@.exceeded ==> r is Some && text::opt(r) == Some(overflow_text(old(self)@.max))
                && final(self)@ == (LineState { exceeded: false, skipping: true, ..old(self)@ }),
    {
        if self.limit_exceeded {
            self.limit_exceeded = false;
            self.skip_next_newline = true;
            let mut m = "SSE line exceeded maximum length of ".to_owned();
            let n = text::number_text(self.max_line_length as u64);
            text::push_text(&mut m, n.as_str());
            text::push_text(&mut m, " bytes");
            Some(m)
        } else {
            None
        }
    }
}

/// The report of a line longer than `max`.
pub open spec fn overflow_text(max: nat) -> Seq<char> {
    "SSE line exceeded maximum length of "@ + text::decimal(max) + " bytes"@
}

/// The position of the first line feed.
fn feed_position(b: &[u8]) -> (r: Option<usize>)
    ensures
        r matches Some(i) ==> first_feed(b@) == Some(i as int) && i < b@.len(),
        r is None ==> first_feed(b@) is None,
{
    let mut i: usize = 0;
    proof {
        lemma_first_feed(b@);
    }
    while i < b.len()
        invariant
            i <= b@.len(),
            forall|j: int| 0 <= j < i ==> b@[j] != 10u8,
            first_feed(b@) matches Some(k) ==> 0 <= k < b@.len() && b@[k] == 10u8 && forall|j: int|
                0 <= j < k ==> b@[j] != 10u8,
            first_feed(b@) is None ==> forall|j: int| 0 <= j < b@.len() ==> b@[j] != 10u8,
        decreases b@.len() - i,
    {
        if b[i] == 10u8 {
            proof {
                let k = first_feed(b@)->0;
                if k < i {
                    assert(b@[k] != 10u8);
                } else if k > i {
                    assert(b@[i as int] != 10u8);
                }
            }
            return Some(i);
        }
        i = i + 1;
    }
    proof {
        if first_feed(b@) is Some {
            assert(b@[first_feed(b@)->0] != 10u8);
        }
    }
    None
}

/// The texts of the complete lines, all or those that are not empty, and the
/// bytes after the last line feed.
fn cut(p: &Vec<u8>, drop_empty: bool) -> (r: (Vec<String>, Vec<u8>))
    ensures
        text::texts(r.0@) == decoded(
            if drop_empty {
                nonempty(complete_lines(p@))
            } else {
                complete_lines(p@)
            },
        ),
        r.1@ == unfinished(p@),
{
    let mut lines: Vec<String> = Vec::new();
    let mut cur: Vec<u8> = Vec::new();
    let mut i: usize = 0;
    let ghost mut raw: Seq<Seq<u8>> = Seq::empty();
    assert(p@.take(0) =~= Seq::empty());
    while i < p.len()
        invariant
            i <= p@.len(),
            cur@ =~= unfinished(p@.take(i as int)),
            raw == (if drop_empty {
                nonempty(complete_lines(p@.take(i as int)))
            } else {
                complete_lines(p@.take(i as int))
            }),
            text::texts(lines@) =~= decoded(raw),
        decreases p@.len() - i,
    {
        proof {
            assert(p@.take(i + 1).drop_last() =~= p@.take(i as int));
            assert(p@.take(i + 1).last() == p@[i as int]);
        }
        if p[i] == 10u8 {
            let ghost line = without_cr(cur@);
            if cur.len() > 0 && cur[cur.len() - 1] == 13u8 {
                cur.pop();
            }
            assert(cur@ =~= line);
            proof {
                let all = complete_lines(p@.take(i as int));
                assert(all.push(line).drop_last() =~= all);
            }
            if !drop_empty || cur.len() > 0 {
                let ghost before = lines@;
                let t = text_of_bytes(cur.as_slice());
                proof {
                    if line.len() == 0 {
                        assert(vstd::utf8::decode_utf8(line) =~= Seq::empty());
                    }
                }
                lines.push(t);
                proof {
                    assert(text::texts(lines@) =~= text::texts(before).push(line_text(line)));
                    assert(decoded(raw.push(line)) =~= decoded(raw).push(line_text(line)));
                    raw = raw.push(line);
                }
            }
            cur = Vec::new();
        } else {
            cur.push(p[i]);
        }
        i = i + 1;
    }
    assert(p@.take(i as int) =~= p@);
    (lines, cur)
}

// ---------------------------------------------------------------------------
// Transfers that broke off
// ---------------------------------------------------------------------------

/// The report of a transfer that broke off, which says whether trying again may help.
pub open spec fn broken_off(prefix: Seq<char>, error: Seq<char>) -> Seq<char> {
    prefix + error + (if retryable(error) {
        " (retryable)"@
    } else {
        Seq::empty()
    })
}

/// Trying again may help after a transfer broke off with this message.
pub open spec fn retryable(error: Seq<char>) -> bool {
    text::has(error, "timeout"@) || text::has(error, "connection"@) || text::has(
        error,
        "incomplete"@,
    ) || text::has(error, "decode"@)
}

/// The report of a transfer that broke off.
pub fn stream_error(prefix: &str, error: &str) -> (r: String)
    ensures
        r@ == broken_off(prefix@, error@),
{
    let mut m = prefix.to_owned();
    text::push_text(&mut m, error);
    if text::contains(error, "timeout") || text::contains(error, "connection") || text::contains(
        error,
        "incomplete",
    ) || text::contains(error, "decode") {
        text::push_text(&mut m, " (retryable)");
    }
    assert(m@ =~= broken_off(prefix@, error@));
    m
}

} // verus!
