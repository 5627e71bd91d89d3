//! What a MiniMax response shows of its thoughts, however its content is cut into deltas.

use crate::providers::minimax_laws;
use crate::providers::minimax_laws::Told;
use crate::providers::minimax_stream;
use crate::providers::minimax_stream::Mini;
use crate::providers::reasoning;
use crate::providers::types::Chunk;
use crate::text;
use vstd::prelude::*;

verus! {

/// What was emitted of the thoughts, with what is new in one more piece of them.
pub open spec fn thought_on(emitted: Seq<char>, piece: Seq<char>) -> Seq<char> {
    emitted + reasoning::fresh(emitted, piece)
}

/// The piece of a thought at the front of content inside a thinking passage.
pub open spec fn first_piece(s: Seq<char>) -> Seq<char> {
    if s.len() == 0 {
        Seq::empty()
    } else {
        match minimax_stream::next_marker(s, true) {
            Some((i, n)) => s.take(i),
            None => s.take(s.len() - minimax_stream::held_back(s, true)),
        }
    }
}

/// What was emitted of the thoughts after content.
pub open spec fn thinks(emitted: Seq<char>, in_tag: bool, s: Seq<char>) -> Seq<char>
    decreases s.len(),
{
    if s.len() == 0 {
        emitted
    } else {
        proof {
            minimax_stream::lemma_next_marker(s, in_tag);
        }
        let now = if in_tag {
            thought_on(emitted, first_piece(s))
        } else {
            emitted
        };
        match minimax_stream::next_marker(s, in_tag) {
            Some((i, n)) => thinks(now, !in_tag, s.skip(i + n)),
            None => now,
        }
    }
}

/// The thinking passage in which content ends: what was emitted before it, and the piece of
/// it that the content holds.
pub open spec fn open_passage(emitted: Seq<char>, in_tag: bool, s: Seq<char>) -> Option<
    (Seq<char>, Seq<char>),
>
    decreases s.len(),
{
    if s.len() == 0 {
        if in_tag {
            Some((emitted, Seq::empty()))
        } else {
            None
        }
    } else {
        proof {
            minimax_stream::lemma_next_marker(s, in_tag);
        }
        match minimax_stream::next_marker(s, in_tag) {
            Some((i, n)) => open_passage(
                if in_tag {
                    thought_on(emitted, first_piece(s))
                } else {
                    emitted
                },
                !in_tag,
                s.skip(i + n),
            ),
            None => if in_tag {
                Some((emitted, first_piece(s)))
            } else {
                None
            },
        }
    }
}

/// Content is cut in two without a trace: it is not cut inside a thought, or the two pieces
/// of the thought come to what the whole of it comes to. A piece may repeat the end of what
/// was emitted, which is taken for a repetition: that is where a cut leaves a trace.
pub open spec fn is_seamless(
    emitted: Seq<char>,
    in_tag: bool,
    a: Seq<char>,
    b: Seq<char>,
) -> bool {
    match open_passage(emitted, in_tag, a) {
        None => true,
        Some((e, x)) => {
            let y = first_piece(minimax_laws::told(in_tag, a).carry + b);
            thought_on(thought_on(e, x), y) == thought_on(e, x + y)
        },
    }
}

proof fn lemma_nothing_thought(e: Seq<char>)
    ensures
        thought_on(e, Seq::empty()) == e,
{
    reasoning::law_overlap_is_longest(e, Seq::empty());
    assert(reasoning::fresh(e, Seq::empty()) =~= Seq::empty());
    assert(e + Seq::<char>::empty() =~= e);
}

/// A cut at either end of a thought leaves no trace.
proof fn lemma_seamless_at_ends(e: Seq<char>, x: Seq<char>, y: Seq<char>)
    requires
        x.len() == 0 || y.len() == 0,
    ensures
        thought_on(thought_on(e, x), y) == thought_on(e, x + y),
{
    if x.len() == 0 {
        assert(x =~= Seq::empty());
        assert(x + y =~= y);
        lemma_nothing_thought(e);
    } else {
        assert(y =~= Seq::empty());
        assert(x + y =~= x);
        lemma_nothing_thought(thought_on(e, x));
    }
}

/// Content emits what `thinks` says.
pub proof fn lemma_thinks(s: Mini, rest: Seq<char>, id: Seq<char>)
    ensures
        minimax_stream::content_steps(s, rest, id).state.emitted == thinks(
            s.emitted,
            s.in_tag,
            rest,
        ),
    decreases rest.len(),
{
    if rest.len() > 0 {
        minimax_stream::lemma_next_marker(rest, s.in_tag);
        if let Some((i, n)) = minimax_stream::next_marker(rest, s.in_tag) {
            if !s.in_tag {
                let shown = Mini { pending: s.pending + rest.take(i), signature: Some(id), ..s };
                let next = Mini { in_tag: true, ..minimax_stream::flushed(shown) };
                lemma_thinks(next, rest.skip(i + n), id);
            } else {
                let next = Mini { in_tag: false, ..minimax_stream::reasoned(s, rest.take(i)) };
                lemma_thinks(next, rest.skip(i + n), id);
            }
        }
    }
}

/// A cut without a trace makes no difference to what is emitted.
proof fn lemma_cut_thinks(e: Seq<char>, in_tag: bool, a: Seq<char>, b: Seq<char>)
    requires
        is_seamless(e, in_tag, a, b),
    ensures
        ({
            let first = minimax_laws::told(in_tag, a);
            thinks(e, in_tag, a + b) == thinks(
                thinks(e, in_tag, a),
                first.in_tag,
                first.carry + b,
            )
        }),
    decreases a.len(),
{
    let first = minimax_laws::told(in_tag, a);
    if a.len() == 0 {
        assert(a + b =~= b);
        assert(first.carry + b =~= b);
    } else {
        minimax_stream::lemma_next_marker(a, in_tag);
        match minimax_stream::next_marker(a, in_tag) {
            Some((i, n)) => {
                minimax_laws::lemma_marker_found_early(a, b, in_tag);
                let now = if in_tag {
                    thought_on(e, first_piece(a))
                } else {
                    e
                };
                lemma_cut_thinks(now, !in_tag, a.skip(i + n), b);
                assert((a + b).skip(i + n) =~= a.skip(i + n) + b);
                assert((a + b).take(i) =~= a.take(i));
            },
            None => {
                lemma_cut_in_carry(e, in_tag, a, b);
            },
        }
    }
}

proof fn lemma_cut_in_carry(e: Seq<char>, in_tag: bool, a: Seq<char>, b: Seq<char>)
    requires
        a.len() > 0,
        minimax_stream::next_marker(a, in_tag) is None,
        is_seamless(e, in_tag, a, b),
    ensures
        ({
            let first = minimax_laws::told(in_tag, a);
            thinks(e, in_tag, a + b) == thinks(
                thinks(e, in_tag, a),
                first.in_tag,
                first.carry + b,
            )
        }),
{
    let marks = minimax_stream::markers(in_tag);
    reasoning::lemma_partial_up_to(a, marks, a.len() as int);
    let at = a.len() - minimax_stream::held_back(a, in_tag);
    let x = a.take(at);
    let r = a.skip(at) + b;
    let s = a + b;
    assert(s =~= x + r);
    minimax_laws::lemma_marker_found_late(in_tag, a, b);
    let first = minimax_laws::told(in_tag, a);
    assert(first.in_tag == in_tag);
    assert(first.carry + b == r);
    let before = thinks(e, in_tag, a);
    assert(before == (if in_tag {
        thought_on(e, x)
    } else {
        e
    }));
    if r.len() == 0 {
        assert(s =~= a);
    } else {
        lemma_first_piece_of_both(in_tag, a, b);
        assert(in_tag ==> thought_on(before, first_piece(r)) == thought_on(e, first_piece(s)));
        match minimax_stream::next_marker(r, in_tag) {
            Some((i, n)) => {
                minimax_stream::lemma_next_marker(r, in_tag);
                assert(s.skip(at + i + n) =~= r.skip(i + n));
                assert(minimax_stream::next_marker(s, in_tag) == Some((at + i, n)));
                let now = if in_tag {
                    thought_on(e, first_piece(s))
                } else {
                    e
                };
                assert(thinks(e, in_tag, s) == thinks(now, !in_tag, s.skip(at + i + n)));
                assert(thinks(before, in_tag, r) == thinks(now, !in_tag, r.skip(i + n)));
            },
            None => {
                assert(minimax_stream::next_marker(s, in_tag) is None);
            },
        }
    }
}

/// Without a marker in `a`, the first piece of `a + b` is what is let go of `a` and the
/// first piece of what is held back of it and `b`.
proof fn lemma_first_piece_of_both(in_tag: bool, a: Seq<char>, b: Seq<char>)
    requires
        a.len() > 0,
        minimax_stream::next_marker(a, in_tag) is None,
    ensures
        in_tag ==> ({
            let at = a.len() - minimax_stream::held_back(a, true);
            first_piece(a + b) == a.take(at) + first_piece(a.skip(at) + b)
        }),
{
    if in_tag {
        let marks = minimax_stream::markers(true);
        reasoning::lemma_partial_up_to(a, marks, a.len() as int);
        let at = a.len() - minimax_stream::held_back(a, true);
        let x = a.take(at);
        let r = a.skip(at) + b;
        let s = a + b;
        assert(s =~= x + r);
        minimax_laws::lemma_marker_found_late(true, a, b);
        if r.len() == 0 {
            assert(s =~= a);
            assert(x + Seq::<char>::empty() =~= x);
        } else {
            match minimax_stream::next_marker(r, true) {
                Some((i, n)) => {
                    minimax_stream::lemma_next_marker(r, true);
                    assert(s.take(at + i) =~= x + r.take(i));
                },
                None => {
                    minimax_laws::lemma_same_held_back(true, a, b);
                    let h = minimax_stream::held_back(s, true);
                    reasoning::lemma_partial_up_to(r, marks, r.len() as int);
                    assert(s.take(s.len() - h) =~= x + r.take(r.len() - h));
                },
            }
        }
    }
}

// ---------------------------------------------------------------------------
// A whole response
// ---------------------------------------------------------------------------

/// The chunks of content with those of its end: what was held back, then pending text.
pub open spec fn ended(o: (Mini, Seq<Chunk>), id: Seq<char>) -> Seq<Chunk> {
    o.1 + minimax_stream::carry_chunks(o.0, id) + minimax_stream::flush_chunks(
        minimax_stream::carry_released(o.0, id),
        id,
    )
}

/// Content in two deltas.
pub open spec fn in_two(s: Mini, a: Seq<char>, b: Seq<char>, id: Seq<char>) -> (Mini, Seq<Chunk>) {
    let first = minimax_stream::content_outcome(s, a, id);
    let second = minimax_stream::content_outcome(first.0, b, id);
    (second.0, first.1 + second.1)
}

pub proof fn lemma_ended(o: (Mini, Seq<Chunk>), id: Seq<char>)
    ensures
        minimax_laws::visible_text(ended(o, id)) == minimax_laws::visible_text(o.1) + o.0.pending
            + (if o.0.in_tag {
            Seq::empty()
        } else {
            o.0.carry
        }),
        minimax_laws::reasoning_text(ended(o, id)) == minimax_laws::reasoning_text(o.1) + (
        if o.0.in_tag {
            reasoning::fresh(o.0.emitted, o.0.carry)
        } else {
            Seq::empty()
        }),
{
    let c = minimax_stream::carry_chunks(o.0, id);
    let s = minimax_stream::carry_released(o.0, id);
    let f = minimax_stream::flush_chunks(s, id);
    minimax_laws::lemma_texts_add(o.1, c);
    minimax_laws::lemma_texts_add(o.1 + c, f);
    minimax_laws::lemma_flush_texts(s, id);
    let new = reasoning::fresh(o.0.emitted, o.0.carry);
    lemma_nothing_thought(o.0.emitted);
    if o.0.carry.len() == 0 {
        assert(o.0.carry =~= Seq::empty());
        reasoning::law_overlap_is_longest(o.0.emitted, o.0.carry);
        assert(new =~= Seq::empty());
    } else if o.0.in_tag && new.len() > 0 {
        minimax_laws::lemma_one(c[0]);
        assert(c =~= seq![c[0]]);
    }
    assert(minimax_laws::visible_text(c) =~= Seq::empty());
    assert(minimax_laws::visible_text(f) + minimax_stream::flushed(s).pending
        =~= minimax_laws::visible_text(f));
    assert(minimax_laws::visible_text(ended(o, id)) =~= minimax_laws::visible_text(o.1)
        + o.0.pending + (if o.0.in_tag {
        Seq::empty()
    } else {
        o.0.carry
    }));
    assert(minimax_laws::reasoning_text(ended(o, id)) =~= minimax_laws::reasoning_text(o.1) + (
    if o.0.in_tag {
        new
    } else {
        Seq::empty()
    }));
}

/// However content is cut into two deltas, as long as the cut leaves no trace in a thought,
/// the same text and the same reasoning are shown when it has ended.
pub proof fn law_cut_content_shows_the_same(
    s: Mini,
    a: Seq<char>,
    b: Seq<char>,
    id: Seq<char>,
    end: Seq<char>,
)
    requires
        is_seamless(s.emitted, s.in_tag, s.carry + a, b),
    ensures
        ({
            let cut = ended(in_two(s, a, b, id), end);
            let whole = ended(minimax_stream::content_outcome(s, a + b, id), end);
            &&& minimax_laws::visible_text(cut) == minimax_laws::visible_text(whole)
            &&& minimax_laws::reasoning_text(cut) == minimax_laws::reasoning_text(whole)
        }),
        minimax_laws::reasoning_text(in_two(s, a, b, id).1) == minimax_laws::reasoning_text(
            minimax_stream::content_outcome(s, a + b, id).1,
        ),
{
    let first = minimax_stream::content_outcome(s, a, id);
    let second = minimax_stream::content_outcome(first.0, b, id);
    let two = in_two(s, a, b, id);
    let whole = minimax_stream::content_outcome(s, a + b, id);
    minimax_laws::law_split_content_shows_the_same_text(s, a, b, id);
    minimax_laws::lemma_outcome(s, a, id);
    minimax_laws::lemma_outcome(first.0, b, id);
    minimax_laws::lemma_outcome(s, a + b, id);
    minimax_laws::lemma_texts_add(first.1, second.1);
    assert((s.carry + a) + b =~= s.carry + (a + b));
    lemma_thinks(Mini { carry: Seq::empty(), ..s }, s.carry + a, id);
    lemma_thinks(Mini { carry: Seq::empty(), ..first.0 }, first.0.carry + b, id);
    lemma_thinks(Mini { carry: Seq::empty(), ..s }, s.carry + (a + b), id);
    lemma_cut_thinks(s.emitted, s.in_tag, s.carry + a, b);
    assert(second.0.emitted == whole.0.emitted);
    let n = s.emitted.len() as int;
    assert(second.0.emitted =~= s.emitted + minimax_laws::reasoning_text(two.1));
    assert(second.0.emitted.skip(n) =~= minimax_laws::reasoning_text(two.1));
    assert(whole.0.emitted.skip(n) =~= minimax_laws::reasoning_text(whole.1));
    lemma_ended(two, end);
    lemma_ended(whole, end);
}

// ---------------------------------------------------------------------------
// Cuts inside markers
// ---------------------------------------------------------------------------

/// Text without a `<`, in which no marker can stand or begin.
pub open spec fn is_plain(s: Seq<char>) -> bool {
    forall|i: int| 0 <= i < s.len() ==> #[trigger] s[i] != '<'
}

/// Text with a thought in it, between an opening and a closing marker of either form.
pub open spec fn with_thought(
    before: Seq<char>,
    open: int,
    hidden: Seq<char>,
    close: int,
    after: Seq<char>,
) -> Seq<char> {
    before + minimax_stream::markers(false)[open] + (hidden + minimax_stream::markers(true)[close]
        + after)
}

proof fn lemma_plain(s: Seq<char>, close: bool)
    requires
        is_plain(s),
    ensures
        minimax_stream::next_marker(s, close) is None,
        minimax_stream::held_back(s, close) == 0,
{
    minimax_laws::lemma_marker_shape(close);
    lemma_part_of_marker(s, close, 0, 0);
    assert(s + minimax_stream::markers(close)[0].take(0) =~= s);
}

/// Of a marker that is cut, all that is there is held back.
proof fn lemma_part_of_marker(p: Seq<char>, close: bool, m: int, k: int)
    requires
        is_plain(p),
        0 <= m < 2,
        0 <= k < minimax_stream::markers(close)[m].len(),
    ensures
        ({
            let a = p + minimax_stream::markers(close)[m].take(k);
            &&& minimax_stream::next_marker(a, close) is None
            &&& minimax_stream::held_back(a, close) == k
        }),
{
    let marks = minimax_stream::markers(close);
    let mark = marks[m];
    let a = p + mark.take(k);
    minimax_laws::lemma_marker_shape(close);
    minimax_laws::lemma_next_marker_is_first(a, close);
    assert forall|i: int| 0 <= i < a.len() && #[trigger] a[i] == '<' implies i == p.len() by {
        if i > p.len() {
            assert(a[i] == mark[i - p.len()]);
        }
    }
    if let Some((i, n)) = minimax_stream::next_marker(a, close) {
        let q = choose|q: int|
            0 <= q < 2 && #[trigger] minimax_laws::marker_at(a, close, q, i) && n == marks[q].len();
        let other = marks[q];
        assert(a.subrange(i, i + other.len())[0] == other[0]);
        assert(a[i] == '<');
        if q != m {
            assert(a.subrange(i, i + other.len())[1] == other[1]);
            assert(a[i + 1] == mark[1]);
        }
    }
    reasoning::lemma_partial_up_to(a, marks, a.len() as int);
    let h = minimax_stream::held_back(a, close);
    if h > k {
        assert(reasoning::is_partial(a, marks, h));
        let q = choose|q: int|
            0 <= q < marks.len() && (#[trigger] marks[q]).len() > h && text::begins(
                marks[q],
                a.skip(a.len() - h),
            );
        assert(marks[q].subrange(0, h)[0] == a.skip(a.len() - h)[0]);
        assert(a[a.len() - h] == '<');
    } else if h < k {
        assert(a.skip(a.len() - k) =~= mark.subrange(0, k));
        assert(text::begins(marks[m], a.skip(a.len() - k)));
        assert(reasoning::is_partial(a, marks, k));
    }
}

proof fn lemma_marker_after_plain(p: Seq<char>, close: bool, m: int, tail: Seq<char>)
    requires
        is_plain(p),
        0 <= m < 2,
    ensures
        minimax_stream::next_marker(p + minimax_stream::markers(close)[m] + tail, close) == Some(
            (p.len() as int, minimax_stream::markers(close)[m].len() as int),
        ),
{
    let marks = minimax_stream::markers(close);
    let mark = marks[m];
    let w = p + mark + tail;
    minimax_laws::lemma_marker_shape(close);
    assert(w.subrange(p.len() as int, p.len() as int + mark.len()) =~= mark);
    assert(minimax_laws::marker_at(w, close, m, p.len() as int));
    assert forall|q: int, j: int| 0 <= q < 2 && 0 <= j < p.len() implies !#[trigger]
        minimax_laws::marker_at(w, close, q, j) by {
        if minimax_laws::marker_at(w, close, q, j) {
            assert(w.subrange(j, j + marks[q].len())[0] == marks[q][0]);
            assert(w[j] == p[j]);
        }
    }
    minimax_laws::lemma_first_is_next_marker(w, close, m, p.len() as int);
}

proof fn lemma_with_thought(
    before: Seq<char>,
    open: int,
    hidden: Seq<char>,
    close: int,
    after: Seq<char>,
)
    requires
        0 <= open < 2,
        0 <= close < 2,
        is_plain(before),
        is_plain(hidden),
        is_plain(after),
    ensures
        ({
            let w = with_thought(before, open, hidden, close, after);
            &&& minimax_laws::told(false, w) == (Told {
                visible: before + after,
                thought: hidden,
                in_tag: false,
                carry: Seq::empty(),
            })
            &&& thinks(Seq::empty(), false, w) == hidden
        }),
{
    let o = minimax_stream::markers(false)[open];
    let c = minimax_stream::markers(true)[close];
    let rest = hidden + c + after;
    let w = before + o + rest;
    minimax_laws::lemma_marker_shape(false);
    minimax_laws::lemma_marker_shape(true);
    lemma_marker_after_plain(before, false, open, rest);
    lemma_marker_after_plain(hidden, true, close, after);
    lemma_plain(after, false);
    assert(w.take(before.len() as int) =~= before);
    assert(w.skip(before.len() as int + o.len()) =~= rest);
    assert(rest.take(hidden.len() as int) =~= hidden);
    assert(rest.skip(hidden.len() as int + c.len()) =~= after);
    let last = minimax_laws::told(false, after);
    assert(last.visible =~= after);
    assert(last.thought =~= Seq::empty());
    assert(last.carry =~= Seq::empty());
    let middle = minimax_laws::told(true, rest);
    assert(middle.visible =~= after);
    assert(middle.thought =~= hidden);
    assert(minimax_laws::told(false, w).visible =~= before + after);
    reasoning::law_overlap_is_longest(Seq::empty(), hidden);
    assert(thought_on(Seq::empty(), hidden) =~= hidden);
    assert(thinks(hidden, false, after) == hidden);
    assert(thinks(Seq::empty(), true, rest) == hidden);
}

/// A cut that is not inside the thought leaves no trace.
proof fn lemma_cut_beside_thought(
    before: Seq<char>,
    open: int,
    hidden: Seq<char>,
    close: int,
    after: Seq<char>,
    cut: int,
)
    requires
        0 <= open < 2,
        0 <= close < 2,
        is_plain(before),
        is_plain(hidden),
        is_plain(after),
        0 <= cut <= with_thought(before, open, hidden, close, after).len(),
        is_beside_thought(before, open, hidden, cut),
    ensures
        ({
            let w = with_thought(before, open, hidden, close, after);
            is_seamless(Seq::empty(), false, w.take(cut), w.skip(cut))
        }),
{
    let o = minimax_stream::markers(false)[open];
    let c = minimax_stream::markers(true)[close];
    let rest = hidden + c + after;
    let w = before + o + rest;
    let a = w.take(cut);
    let b = w.skip(cut);
    let e = Seq::<char>::empty();
    minimax_laws::lemma_marker_shape(false);
    minimax_laws::lemma_marker_shape(true);
    let at = before.len() + o.len();
    if cut < before.len() {
        assert(is_plain(a)) by {
            assert forall|i: int| 0 <= i < a.len() implies #[trigger] a[i] != '<' by {
                assert(a[i] == before[i]);
            }
        }
        lemma_plain(a, false);
        assert(open_passage(e, false, a) is None);
    } else if cut < at {
        let k = cut - before.len();
        assert(a =~= before + o.take(k));
        lemma_part_of_marker(before, false, open, k);
        assert(open_passage(e, false, a) is None);
    } else {
        let tail = rest.take(cut - at);
        assert(a =~= before + o + tail);
        lemma_marker_after_plain(before, false, open, tail);
        assert(a.skip(at as int) =~= tail);
        assert(open_passage(e, false, a) == open_passage(e, true, tail));
        assert(minimax_laws::told(false, a).carry == minimax_laws::told(true, tail).carry);
        if tail.len() == 0 {
            lemma_seamless_at_ends(
                e,
                Seq::empty(),
                first_piece(minimax_laws::told(true, tail).carry + b),
            );
        } else {
            let k = cut - at - hidden.len();
            if k < c.len() {
                assert(tail =~= hidden + c.take(k));
                lemma_part_of_marker(hidden, true, close, k);
                let carry = minimax_laws::told(true, tail).carry;
                assert(carry =~= c.take(k));
                assert(carry + b =~= Seq::empty() + c + after);
                lemma_marker_after_plain(Seq::empty(), true, close, after);
                assert(first_piece(carry + b) =~= Seq::empty());
                lemma_seamless_at_ends(e, first_piece(tail), first_piece(carry + b));
            } else {
                let end = after.take(k - c.len());
                assert(tail =~= hidden + c + end);
                lemma_marker_after_plain(hidden, true, close, end);
                assert(tail.skip(hidden.len() as int + c.len()) =~= end);
                assert(is_plain(end)) by {
                    assert forall|i: int| 0 <= i < end.len() implies #[trigger] end[i] != '<' by {
                        assert(end[i] == after[i]);
                    }
                }
                lemma_plain(end, false);
                assert(open_passage(thought_on(e, first_piece(tail)), false, end) is None);
                assert(open_passage(e, true, tail) is None);
            }
        }
    }
}

/// A position that is not inside the thought: it lies in the text around it, in a marker,
/// or at an end of the thought.
pub open spec fn is_beside_thought(
    before: Seq<char>,
    open: int,
    hidden: Seq<char>,
    cut: int,
) -> bool {
    let at = before.len() + minimax_stream::markers(false)[open].len();
    cut <= at || cut >= at + hidden.len()
}

/// A thought between markers of either form is shown as reasoning and never as text, even
/// where a marker is cut in two: whatever the place of the cut beside the thought, the text
/// that is shown is the text around it, and the reasoning is the thought.
pub proof fn law_cut_markers_hide_the_thought(
    before: Seq<char>,
    open: int,
    hidden: Seq<char>,
    close: int,
    after: Seq<char>,
    cut: int,
    id: Seq<char>,
    end: Seq<char>,
)
    requires
        0 <= open < 2,
        0 <= close < 2,
        is_plain(before),
        is_plain(hidden),
        is_plain(after),
        0 <= cut <= with_thought(before, open, hidden, close, after).len(),
        is_beside_thought(before, open, hidden, cut),
    ensures
        ({
            let w = with_thought(before, open, hidden, close, after);
            let shown = ended(
                in_two(minimax_stream::fresh_state(), w.take(cut), w.skip(cut), id),
                end,
            );
            &&& minimax_laws::visible_text(shown) == before + after
            &&& minimax_laws::reasoning_text(shown) == hidden
        }),
{
    let w = with_thought(before, open, hidden, close, after);
    let s = minimax_stream::fresh_state();
    let a = w.take(cut);
    let b = w.skip(cut);
    assert(a + b =~= w);
    assert(s.carry + a =~= a);
    assert(s.carry + w =~= w);
    lemma_cut_beside_thought(before, open, hidden, close, after, cut);
    lemma_with_thought(before, open, hidden, close, after);
    law_cut_content_shows_the_same(s, a, b, id, end);
    let whole = minimax_stream::content_outcome(s, w, id);
    minimax_laws::lemma_outcome(s, w, id);
    lemma_thinks(Mini { carry: Seq::empty(), ..s }, w, id);
    lemma_ended(whole, end);
    let seen = minimax_laws::visible_text(whole.1) + whole.0.pending;
    assert(s.pending + (before + after) =~= before + after);
    assert(seen + Seq::<char>::empty() =~= seen);
    let reasoned = minimax_laws::reasoning_text(whole.1);
    assert(s.emitted + reasoned =~= reasoned);
    assert(reasoned + Seq::<char>::empty() =~= reasoned);
}

} // verus!
