//! What holds of every MiniMax response, however its content is split into deltas.

use crate::providers::calls;
use crate::providers::calls::Call;
use crate::providers::minimax_stream;
use crate::providers::minimax_stream::{Mini, Progress};
use crate::providers::reasoning;
use crate::providers::stream_events::ToolPart;
use crate::providers::types;
use crate::providers::types::Chunk;
use crate::text;
use vstd::prelude::*;

verus! {

/// Content told apart: the visible text, the thoughts, whether it ends inside a
/// thinking passage, and the end that may turn out to be a marker.
pub struct Told {
    pub visible: Seq<char>,
    pub thought: Seq<char>,
    pub in_tag: bool,
    pub carry: Seq<char>,
}

/// Content told apart, from inside (`in_tag`) or outside of a thinking passage.
pub open spec fn told(in_tag: bool, s: Seq<char>) -> Told
    decreases s.len(),
{
    if s.len() == 0 {
        Told { visible: Seq::empty(), thought: Seq::empty(), in_tag, carry: Seq::empty() }
    } else {
        proof {
            minimax_stream::lemma_next_marker(s, in_tag);
        }
        match minimax_stream::next_marker(s, in_tag) {
            Some((i, n)) => {
                let rest = told(!in_tag, s.skip(i + n));
                if in_tag {
                    Told { thought: s.take(i) + rest.thought, ..rest }
                } else {
                    Told { visible: s.take(i) + rest.visible, ..rest }
                }
            },
            None => {
                let k = s.len() - minimax_stream::held_back(s, in_tag);
                if in_tag {
                    Told {
                        visible: Seq::empty(),
                        thought: s.take(k),
                        in_tag,
                        carry: s.skip(k),
                    }
                } else {
                    Told {
                        visible: s.take(k),
                        thought: Seq::empty(),
                        in_tag,
                        carry: s.skip(k),
                    }
                }
            },
        }
    }
}

/// A marker stands at a position.
pub open spec fn marker_at(s: Seq<char>, close: bool, m: int, i: int) -> bool {
    text::matches_at(s, minimax_stream::markers(close)[m], i)
}

/// Each marker begins with `<` and holds no other one, and no marker begins another.
pub proof fn lemma_marker_shape(close: bool)
    ensures
        minimax_stream::markers(close).len() == 2,
        forall|m: int|
            0 <= m < 2 ==> (#[trigger] minimax_stream::markers(close)[m]).len() > 1
                && minimax_stream::markers(close)[m][0] == '<',
        forall|m: int, k: int|
            0 <= m < 2 && 0 < k < minimax_stream::markers(close)[m].len()
                ==> (#[trigger] minimax_stream::markers(close)[m][k]) != '<',
        minimax_stream::markers(close)[0][1] != minimax_stream::markers(close)[1][1],
{
    reveal_strlit("</think>");
    reveal_strlit("<!-- /think -->");
    reveal_strlit("<think>");
    reveal_strlit("<!-- think -->");
    assert forall|m: int, k: int|
        0 <= m < 2 && 0 < k < minimax_stream::markers(close)[m].len() implies (
    #[trigger] minimax_stream::markers(close)[m][k]) != '<' by {
        if k == 1 {
        } else if k == 2 {
        } else if k == 3 {
        } else if k == 4 {
        } else if k == 5 {
        } else if k == 6 {
        } else if k == 7 {
        } else if k == 8 {
        } else if k == 9 {
        } else if k == 10 {
        } else if k == 11 {
        } else if k == 12 {
        } else if k == 13 {
        } else {
            assert(k == 14);
        }
    }
}

/// `next_marker` is the first marker of either form.
pub proof fn lemma_next_marker_is_first(s: Seq<char>, close: bool)
    ensures
        minimax_stream::next_marker(s, close) matches Some((i, n)) ==> {
            &&& 0 <= i
            &&& exists|m: int|
                0 <= m < 2 && #[trigger] marker_at(s, close, m, i) && n
                    == minimax_stream::markers(close)[m].len()
            &&& forall|m: int, j: int| 0 <= m < 2 && 0 <= j < i ==> !#[trigger] marker_at(s, close, m, j)
        },
        minimax_stream::next_marker(s, close) is None ==> forall|m: int, j: int|
            0 <= m < 2 && 0 <= j ==> !#[trigger] marker_at(s, close, m, j),
{
    lemma_marker_shape(close);
    text::lemma_find_from(s, minimax_stream::markers(close)[0], 0);
    text::lemma_find_from(s, minimax_stream::markers(close)[1], 0);
    match minimax_stream::next_marker(s, close) {
        Some((i, n)) => {
            if n == minimax_stream::markers(close)[0].len() && text::find_from(
                s,
                minimax_stream::markers(close)[0],
                0,
            ) == Some(i) {
                assert(marker_at(s, close, 0, i));
            } else {
                assert(marker_at(s, close, 1, i));
            }
            assert forall|m: int, j: int| 0 <= m < 2 && 0 <= j < i implies !#[trigger] marker_at(
                s,
                close,
                m,
                j,
            ) by {
                if m == 0 {
                } else {
                    assert(m == 1);
                }
            }
        },
        None => {
            assert forall|m: int, j: int| 0 <= m < 2 && 0 <= j implies !#[trigger] marker_at(
                s,
                close,
                m,
                j,
            ) by {
                if m == 0 {
                } else {
                    assert(m == 1);
                }
            }
        },
    }
}

/// The first marker, from what stands where.
pub proof fn lemma_first_is_next_marker(s: Seq<char>, close: bool, m: int, i: int)
    requires
        0 <= m < 2,
        0 <= i,
        marker_at(s, close, m, i),
        forall|q: int, j: int| 0 <= q < 2 && 0 <= j < i ==> !#[trigger] marker_at(s, close, q, j),
    ensures
        minimax_stream::next_marker(s, close) == Some(
            (i, minimax_stream::markers(close)[m].len() as int),
        ),
{
    lemma_next_marker_is_first(s, close);
    lemma_marker_shape(close);
    match minimax_stream::next_marker(s, close) {
        None => {
            assert(!marker_at(s, close, m, i));
        },
        Some((i2, n2)) => {
            let m2 = choose|q: int|
                0 <= q < 2 && #[trigger] marker_at(s, close, q, i2) && n2
                    == minimax_stream::markers(close)[q].len();
            if i2 < i {
                assert(!marker_at(s, close, m2, i2));
            } else if i2 > i {
                assert(!marker_at(s, close, m, i));
            }
            if m2 != m {
                let a = minimax_stream::markers(close)[m];
                let b = minimax_stream::markers(close)[m2];
                assert(s.subrange(i, i + a.len())[1] == a[1]);
                assert(s.subrange(i, i + b.len())[1] == b[1]);
            }
        },
    }
}

/// A marker that is complete in `a` is first in `a + b` where it is first in `a`.
pub proof fn lemma_marker_found_early(a: Seq<char>, b: Seq<char>, close: bool)
    requires
        minimax_stream::next_marker(a, close) is Some,
    ensures
        minimax_stream::next_marker(a + b, close) == minimax_stream::next_marker(a, close),
{
    lemma_next_marker_is_first(a, close);
    lemma_marker_shape(close);
    let (i, n) = minimax_stream::next_marker(a, close)->0;
    let m = choose|q: int|
        0 <= q < 2 && #[trigger] marker_at(a, close, q, i) && n
            == minimax_stream::markers(close)[q].len();
    let s = a + b;
    let mark = minimax_stream::markers(close)[m];
    assert(s.subrange(i, i + mark.len()) =~= a.subrange(i, i + mark.len()));
    assert(marker_at(s, close, m, i));
    assert forall|q: int, j: int| 0 <= q < 2 && 0 <= j < i implies !#[trigger] marker_at(
        s,
        close,
        q,
        j,
    ) by {
        let other = minimax_stream::markers(close)[q];
        if marker_at(s, close, q, j) {
            if j + other.len() <= a.len() {
                assert(a.subrange(j, j + other.len()) =~= s.subrange(j, j + other.len()));
                assert(marker_at(a, close, q, j));
            } else {
                assert(a.subrange(i, i + mark.len())[0] == mark[0]);
                assert(s.subrange(j, j + other.len())[i - j] == other[i - j]);
                assert(other[i - j] == '<');
            }
        }
    }
    lemma_first_is_next_marker(s, close, m, i);
}

/// Without a marker in `a`, markers in `a + b` begin within what is held back.
proof fn lemma_no_marker_before_carry(a: Seq<char>, b: Seq<char>, close: bool, q: int, j: int)
    requires
        minimax_stream::next_marker(a, close) is None,
        0 <= q < 2,
        0 <= j < a.len() - minimax_stream::held_back(a, close),
    ensures
        !marker_at(a + b, close, q, j),
{
    lemma_next_marker_is_first(a, close);
    lemma_marker_shape(close);
    let s = a + b;
    let mark = minimax_stream::markers(close)[q];
    reasoning::lemma_partial_up_to(a, minimax_stream::markers(close), a.len() as int);
    if marker_at(s, close, q, j) {
        if j + mark.len() <= a.len() {
            assert(a.subrange(j, j + mark.len()) =~= s.subrange(j, j + mark.len()));
            assert(marker_at(a, close, q, j));
        } else {
            let k = a.len() - j;
            assert(a.skip(a.len() - k) =~= mark.subrange(0, k)) by {
                assert(s.subrange(j, j + mark.len()) =~= mark);
                assert forall|x: int| 0 <= x < k implies a.skip(j)[x] == mark[x] by {
                    assert(s.subrange(j, j + mark.len())[x] == s[j + x]);
                }
            }
            assert(text::begins(mark, a.skip(a.len() - k)));
            assert(minimax_stream::markers(close)[q].len() > k);
            assert(reasoning::is_partial(a, minimax_stream::markers(close), k));
        }
    }
}

/// Told apart whole or in two deltas, content gives the same visible text, the same
/// thoughts and the same end: a marker may be split anywhere.
#[verifier::rlimit(60)]
#[verifier::spinoff_prover]
pub proof fn law_markers_survive_any_split(in_tag: bool, a: Seq<char>, b: Seq<char>)
    ensures
        ({
            let first = told(in_tag, a);
            let second = told(first.in_tag, first.carry + b);
            let whole = told(in_tag, a + b);
            &&& whole.visible == first.visible + second.visible
            &&& whole.thought == first.thought + second.thought
            &&& whole.in_tag == second.in_tag
            &&& whole.carry == second.carry
        }),
    decreases a.len(),
{
    let first = told(in_tag, a);
    let second = told(first.in_tag, first.carry + b);
    let whole = told(in_tag, a + b);
    if a.len() == 0 {
        assert(a + b =~= b);
        assert(first.carry + b =~= b);
        assert(first.visible + second.visible =~= second.visible);
        assert(first.thought + second.thought =~= second.thought);
    } else {
        minimax_stream::lemma_next_marker(a, in_tag);
        match minimax_stream::next_marker(a, in_tag) {
            Some((i, n)) => {
                lemma_marker_found_early(a, b, in_tag);
                law_markers_survive_any_split(!in_tag, a.skip(i + n), b);
                assert((a + b).skip(i + n) =~= a.skip(i + n) + b);
                assert((a + b).take(i) =~= a.take(i));
                assert(whole.visible =~= first.visible + second.visible);
                assert(whole.thought =~= first.thought + second.thought);
            },
            None => {
                lemma_split_in_carry(in_tag, a, b);
            },
        }
    }
}

/// Without a marker in `a`, the first marker of `a + b` is the first one of the carry
/// of `a` and `b`.
pub proof fn lemma_marker_found_late(in_tag: bool, a: Seq<char>, b: Seq<char>)
    requires
        minimax_stream::next_marker(a, in_tag) is None,
    ensures
        ({
            let at = a.len() - minimax_stream::held_back(a, in_tag);
            let r = a.skip(at) + b;
            minimax_stream::next_marker(a + b, in_tag) == (match minimax_stream::next_marker(
                r,
                in_tag,
            ) {
                Some((i, n)) => Some((at + i, n)),
                None => None,
            })
        }),
{
    let marks = minimax_stream::markers(in_tag);
    let s = a + b;
    reasoning::lemma_partial_up_to(a, marks, a.len() as int);
    let at = a.len() - minimax_stream::held_back(a, in_tag);
    let r = a.skip(at) + b;
    assert(s.skip(at) =~= r);
    lemma_marker_shape(in_tag);
    lemma_next_marker_is_first(r, in_tag);
    assert forall|q: int, j: int| 0 <= q < 2 && 0 <= j < at implies !#[trigger] marker_at(
        s,
        in_tag,
        q,
        j,
    ) by {
        lemma_no_marker_before_carry(a, b, in_tag, q, j);
    }
    assert forall|q: int, j: int| 0 <= q < 2 && at <= j implies #[trigger] marker_at(
        s,
        in_tag,
        q,
        j,
    ) == marker_at(r, in_tag, q, j - at) by {
        let mark = marks[q];
        if j + mark.len() <= s.len() {
            assert(s.subrange(j, j + mark.len()) =~= r.subrange(j - at, j - at + mark.len()));
        }
    }
    match minimax_stream::next_marker(r, in_tag) {
        Some((i, n)) => {
            let m = choose|q: int|
                0 <= q < 2 && #[trigger] marker_at(r, in_tag, q, i) && n == marks[q].len();
            assert(marker_at(s, in_tag, m, at + i));
            lemma_first_is_next_marker(s, in_tag, m, at + i);
        },
        None => {
            lemma_next_marker_is_first(s, in_tag);
            if minimax_stream::next_marker(s, in_tag) is Some {
                let (i, n) = minimax_stream::next_marker(s, in_tag)->0;
                let m = choose|q: int|
                    0 <= q < 2 && #[trigger] marker_at(s, in_tag, q, i) && n == marks[q].len();
                assert(i >= at);
                assert(marker_at(r, in_tag, m, i - at));
            }
        },
    }
}

#[verifier::rlimit(60)]
#[verifier::spinoff_prover]
proof fn lemma_split_in_carry(in_tag: bool, a: Seq<char>, b: Seq<char>)
    requires
        a.len() > 0,
        minimax_stream::next_marker(a, in_tag) is None,
    ensures
        ({
            let first = told(in_tag, a);
            let second = told(first.in_tag, first.carry + b);
            let whole = told(in_tag, a + b);
            &&& whole.visible == first.visible + second.visible
            &&& whole.thought == first.thought + second.thought
            &&& whole.in_tag == second.in_tag
            &&& whole.carry == second.carry
        }),
{
    let first = told(in_tag, a);
    let second = told(first.in_tag, first.carry + b);
    let whole = told(in_tag, a + b);
    let marks = minimax_stream::markers(in_tag);
    let s = a + b;
    reasoning::lemma_partial_up_to(a, marks, a.len() as int);
    let at = a.len() - minimax_stream::held_back(a, in_tag);
    let v = a.take(at);
    let r = a.skip(at) + b;
    assert(s =~= v + r);
    lemma_marker_found_late(in_tag, a, b);
    if r.len() == 0 {
        assert(s =~= a);
        assert(whole.visible =~= first.visible + second.visible);
        assert(whole.thought =~= first.thought + second.thought);
        assert(whole.carry =~= second.carry);
    } else {
        match minimax_stream::next_marker(r, in_tag) {
            Some((i, n)) => {
                minimax_stream::lemma_next_marker(r, in_tag);
                assert(s.take(at + i) =~= v + r.take(i));
                assert(s.skip(at + i + n) =~= r.skip(i + n));
                assert(whole.visible =~= first.visible + second.visible);
                assert(whole.thought =~= first.thought + second.thought);
            },
            None => {
                lemma_same_held_back(in_tag, a, b);
                let h = minimax_stream::held_back(s, in_tag);
                reasoning::lemma_partial_up_to(r, marks, r.len() as int);
                assert(s.take(s.len() - h) =~= v + r.take(r.len() - h));
                assert(s.skip(s.len() - h) =~= r.skip(r.len() - h));
                assert(whole.visible =~= first.visible + second.visible);
                assert(whole.thought =~= first.thought + second.thought);
            },
        }
    }
}

/// Without a marker in `a`, what is held back of `a + b` is what is held back of the
/// carry of `a` and `b`.
pub proof fn lemma_same_held_back(in_tag: bool, a: Seq<char>, b: Seq<char>)
    requires
        minimax_stream::next_marker(a, in_tag) is None,
    ensures
        ({
            let c = a.skip(a.len() - minimax_stream::held_back(a, in_tag));
            minimax_stream::held_back(a + b, in_tag) == minimax_stream::held_back(c + b, in_tag)
        }),
{
    let marks = minimax_stream::markers(in_tag);
    reasoning::lemma_partial_up_to(a, marks, a.len() as int);
    let k = minimax_stream::held_back(a, in_tag);
    let at = a.len() - k;
    let c = a.skip(at);
    let r = c + b;
    let s = a + b;
    assert(s.skip(at) =~= r);
    reasoning::lemma_partial_up_to(s, marks, s.len() as int);
    reasoning::lemma_partial_up_to(r, marks, r.len() as int);
    assert forall|q: int| 0 <= q <= r.len() implies #[trigger] reasoning::is_partial(s, marks, q)
        == reasoning::is_partial(r, marks, q) by {
        assert(s.skip(s.len() - q) =~= r.skip(r.len() - q));
    }
    assert forall|q: int| r.len() < q <= s.len() implies !#[trigger] reasoning::is_partial(
        s,
        marks,
        q,
    ) by {
        if reasoning::is_partial(s, marks, q) {
            let m = choose|m: int|
                0 <= m < marks.len() && (#[trigger] marks[m]).len() > q && text::begins(
                    marks[m],
                    s.skip(s.len() - q),
                );
            let j = s.len() - q;
            let n = a.len() - j;
            assert(a.skip(j) =~= marks[m].subrange(0, n)) by {
                assert forall|x: int| 0 <= x < n implies a.skip(j)[x] == marks[m][x] by {
                    assert(s.skip(j)[x] == a[j + x]);
                    assert(marks[m].subrange(0, q)[x] == s.skip(j)[x]);
                }
            }
            assert(text::begins(marks[m], a.skip(a.len() - n)));
            assert(reasoning::is_partial(a, marks, n));
        }
    }
    let hs = minimax_stream::held_back(s, in_tag);
    let hr = minimax_stream::held_back(r, in_tag);
    if hs > hr {
        assert(reasoning::is_partial(s, marks, hs));
        assert(reasoning::is_partial(r, marks, hs));
    } else if hs < hr {
        assert(reasoning::is_partial(r, marks, hr));
        assert(reasoning::is_partial(s, marks, hr));
    }
}

// ---------------------------------------------------------------------------
// What the chunks show
// ---------------------------------------------------------------------------

/// The visible text of a list of chunks.
pub open spec fn visible_text(chunks: Seq<Chunk>) -> Seq<char>
    decreases chunks.len(),
{
    if chunks.len() == 0 {
        Seq::empty()
    } else {
        visible_text(chunks.drop_last()) + match chunks.last() {
            Chunk::Text { text, id, signature } => text,
            _ => Seq::empty(),
        }
    }
}

/// The reasoning of a list of chunks.
pub open spec fn reasoning_text(chunks: Seq<Chunk>) -> Seq<char>
    decreases chunks.len(),
{
    if chunks.len() == 0 {
        Seq::empty()
    } else {
        reasoning_text(chunks.drop_last()) + match chunks.last() {
            Chunk::Reasoning { reasoning, details, signature, redacted_data, id } => reasoning,
            _ => Seq::empty(),
        }
    }
}

pub proof fn lemma_texts_add(a: Seq<Chunk>, b: Seq<Chunk>)
    ensures
        visible_text(a + b) == visible_text(a) + visible_text(b),
        reasoning_text(a + b) == reasoning_text(a) + reasoning_text(b),
    decreases b.len(),
{
    if b.len() == 0 {
        assert(a + b =~= a);
        assert(visible_text(a) + visible_text(b) =~= visible_text(a));
        assert(reasoning_text(a) + reasoning_text(b) =~= reasoning_text(a));
    } else {
        lemma_texts_add(a, b.drop_last());
        assert((a + b).drop_last() =~= a + b.drop_last());
        assert((a + b).last() == b.last());
        assert(visible_text(a + b) =~= visible_text(a) + visible_text(b));
        assert(reasoning_text(a + b) =~= reasoning_text(a) + reasoning_text(b));
    }
}

pub proof fn lemma_one(c: Chunk)
    ensures
        visible_text(seq![c]) == (match c {
            Chunk::Text { text, id, signature } => text,
            _ => Seq::empty(),
        }),
        reasoning_text(seq![c]) == (match c {
            Chunk::Reasoning { reasoning, details, signature, redacted_data, id } => reasoning,
            _ => Seq::empty(),
        }),
{
    assert(seq![c].drop_last() =~= Seq::empty());
    reveal_with_fuel(visible_text, 2);
    reveal_with_fuel(reasoning_text, 2);
    assert(visible_text(seq![c]) =~= (match c {
        Chunk::Text { text, id, signature } => text,
        _ => Seq::empty(),
    }));
    assert(reasoning_text(seq![c]) =~= (match c {
        Chunk::Reasoning { reasoning, details, signature, redacted_data, id } => reasoning,
        _ => Seq::empty(),
    }));
}

pub proof fn lemma_flush_texts(s: Mini, id: Seq<char>)
    ensures
        visible_text(minimax_stream::flush_chunks(s, id)) + minimax_stream::flushed(s).pending
            == s.pending,
        reasoning_text(minimax_stream::flush_chunks(s, id)) == Seq::<char>::empty(),
{
    if s.pending.len() > 0 {
        lemma_one(Chunk::Text { text: s.pending, id: Some(id), signature: s.signature });
    }
    assert(visible_text(minimax_stream::flush_chunks(s, id)) + minimax_stream::flushed(s).pending
        =~= s.pending);
}

proof fn lemma_reasoning_texts(s: Mini, d: Seq<char>, id: Seq<char>)
    ensures
        visible_text(minimax_stream::reasoning_chunks(s, d, id)) == Seq::<char>::empty(),
        s.emitted + reasoning_text(minimax_stream::reasoning_chunks(s, d, id))
            == minimax_stream::reasoned(s, d).emitted,
{
    let new = reasoning::fresh(s.emitted, d);
    if new.len() > 0 {
        lemma_one(types::reasoning_chunk(new, Some(id)));
    } else {
        assert(new =~= Seq::empty());
    }
}

/// Content comes out as it was told apart: the text that is shown or pending is the
/// visible text, what is held back and the place are those of `told`, and what was
/// remembered as emitted grew by the reasoning that is shown.
pub proof fn law_content_is_told_apart(s: Mini, rest: Seq<char>, id: Seq<char>)
    requires
        s.carry.len() == 0,
    ensures
        ({
            let o = minimax_stream::content_steps(s, rest, id);
            let t = told(s.in_tag, rest);
            &&& visible_text(o.chunks) + o.state.pending == s.pending + t.visible
            &&& o.state.emitted == s.emitted + reasoning_text(o.chunks)
            &&& o.state.in_tag == t.in_tag
            &&& o.state.carry == t.carry
        }),
    decreases rest.len(),
{
    let o = minimax_stream::content_steps(s, rest, id);
    let t = told(s.in_tag, rest);
    if rest.len() == 0 {
        assert(visible_text(o.chunks) + o.state.pending =~= s.pending + t.visible);
        assert(s.emitted + reasoning_text(o.chunks) =~= s.emitted);
        assert(o.state.carry =~= t.carry);
    } else {
        minimax_stream::lemma_next_marker(rest, s.in_tag);
        match minimax_stream::next_marker(rest, s.in_tag) {
            Some((i, n)) => {
                if !s.in_tag {
                    let shown = Mini {
                        pending: s.pending + rest.take(i),
                        signature: Some(id),
                        ..s
                    };
                    let next = Mini { in_tag: true, ..minimax_stream::flushed(shown) };
                    let o2 = minimax_stream::content_steps(next, rest.skip(i + n), id);
                    law_content_is_told_apart(next, rest.skip(i + n), id);
                    lemma_flush_texts(shown, id);
                    lemma_texts_add(minimax_stream::flush_chunks(shown, id), o2.chunks);
                    let f = visible_text(minimax_stream::flush_chunks(shown, id));
                    assert(visible_text(o.chunks) + o.state.pending =~= f + (visible_text(o2.chunks)
                        + o2.state.pending));
                    assert(f + (next.pending + told(true, rest.skip(i + n)).visible) =~= (f
                        + next.pending) + told(true, rest.skip(i + n)).visible);
                    assert(s.pending + t.visible =~= shown.pending + told(
                        true,
                        rest.skip(i + n),
                    ).visible);
                    assert(reasoning_text(o.chunks) =~= reasoning_text(o2.chunks));
                } else {
                    let next = Mini {
                        in_tag: false,
                        ..minimax_stream::reasoned(s, rest.take(i))
                    };
                    let rc = minimax_stream::reasoning_chunks(s, rest.take(i), id);
                    let o2 = minimax_stream::content_steps(next, rest.skip(i + n), id);
                    law_content_is_told_apart(next, rest.skip(i + n), id);
                    lemma_reasoning_texts(s, rest.take(i), id);
                    lemma_texts_add(rc, o2.chunks);
                    assert(visible_text(o.chunks) =~= visible_text(o2.chunks));
                    assert(o.state.emitted =~= s.emitted + reasoning_text(o.chunks));
                }
            },
            None => {
                let k = rest.len() - minimax_stream::held_back(rest, s.in_tag);
                assert(s.carry + rest.skip(k) =~= rest.skip(k));
                if s.in_tag {
                    lemma_reasoning_texts(s, rest.take(k), id);
                    assert(visible_text(o.chunks) + o.state.pending =~= s.pending + t.visible);
                } else {
                    assert(visible_text(o.chunks) + o.state.pending =~= s.pending + t.visible);
                    assert(s.emitted + reasoning_text(o.chunks) =~= s.emitted);
                }
            },
        }
    }
}

proof fn lemma_joined(
    shown: Seq<char>,
    pending: Seq<char>,
    shown_next: Seq<char>,
    pending_next: Seq<char>,
    start: Seq<char>,
    told_first: Seq<char>,
    told_next: Seq<char>,
)
    requires
        shown + pending == start + told_first,
        shown_next + pending_next == pending + told_next,
    ensures
        (shown + shown_next) + pending_next == start + (told_first + told_next),
{
    assert((shown + shown_next) + pending_next =~= shown + (shown_next + pending_next));
    assert(shown + (pending + told_next) =~= (shown + pending) + told_next);
    assert((start + told_first) + told_next =~= start + (told_first + told_next));
}

/// However content is split into two deltas, the text that is shown or pending at
/// the end is the same, and so are the place and what is held back.
pub proof fn law_split_content_shows_the_same_text(
    s: Mini,
    a: Seq<char>,
    b: Seq<char>,
    id: Seq<char>,
)
    ensures
        ({
            let first = minimax_stream::content_outcome(s, a, id);
            let second = minimax_stream::content_outcome(first.0, b, id);
            let whole = minimax_stream::content_outcome(s, a + b, id);
            &&& visible_text(first.1 + second.1) + second.0.pending == visible_text(whole.1)
                + whole.0.pending
            &&& second.0.in_tag == whole.0.in_tag
            &&& second.0.carry == whole.0.carry
        }),
{
    let first = minimax_stream::content_outcome(s, a, id);
    let second = minimax_stream::content_outcome(first.0, b, id);
    let whole = minimax_stream::content_outcome(s, a + b, id);
    lemma_outcome(s, a, id);
    lemma_outcome(first.0, b, id);
    lemma_outcome(s, a + b, id);
    law_markers_survive_any_split(s.in_tag, s.carry + a, b);
    assert((s.carry + a) + b =~= s.carry + (a + b));
    lemma_texts_add(first.1, second.1);
    let t1 = told(s.in_tag, s.carry + a);
    let t2 = told(t1.in_tag, t1.carry + b);
    lemma_joined(
        visible_text(first.1),
        first.0.pending,
        visible_text(second.1),
        second.0.pending,
        s.pending,
        t1.visible,
        t2.visible,
    );
}

pub proof fn lemma_outcome(s: Mini, content: Seq<char>, id: Seq<char>)
    ensures
        ({
            let o = minimax_stream::content_outcome(s, content, id);
            let t = told(s.in_tag, s.carry + content);
            &&& visible_text(o.1) + o.0.pending == s.pending + t.visible
            &&& o.0.in_tag == t.in_tag
            &&& o.0.carry == t.carry
            &&& o.0.emitted == s.emitted + reasoning_text(o.1)
        }),
{
    let z = Mini { carry: Seq::empty(), ..s };
    let o = minimax_stream::content_steps(z, s.carry + content, id);
    law_content_is_told_apart(z, s.carry + content, id);
    lemma_flush_texts(o.state, id);
    let f = minimax_stream::flush_chunks(o.state, id);
    lemma_texts_add(o.chunks, f);
    assert(visible_text(o.chunks) + (visible_text(f) + minimax_stream::flushed(o.state).pending)
        =~= (visible_text(o.chunks) + visible_text(f)) + minimax_stream::flushed(o.state).pending);
    assert(reasoning_text(o.chunks) + reasoning_text(f) =~= reasoning_text(o.chunks));
}

/// What the state remembers as emitted is the reasoning that the chunks show.
pub open spec fn remembers(p: Progress) -> bool {
    p.state.emitted == reasoning_text(p.chunks)
}

proof fn lemma_flush_remembers(p: Progress, id: Seq<char>)
    requires
        remembers(p),
    ensures
        remembers(p.flush(id)),
{
    lemma_flush_texts(p.state, id);
    lemma_texts_add(p.chunks, minimax_stream::flush_chunks(p.state, id));
    assert(reasoning_text(p.flush(id).chunks) =~= reasoning_text(p.chunks));
}

proof fn lemma_reason_remembers(p: Progress, d: Seq<char>, id: Seq<char>)
    requires
        remembers(p),
    ensures
        remembers(p.reason(d, id)),
{
    lemma_flush_remembers(p, id);
    let q = p.flush(id);
    lemma_reasoning_texts(q.state, d, id);
    lemma_texts_add(q.chunks, minimax_stream::reasoning_chunks(q.state, d, id));
}

proof fn lemma_reason_all_remembers(p: Progress, ds: Seq<Seq<char>>, id: Seq<char>)
    requires
        remembers(p),
    ensures
        remembers(p.reason_all(ds, id)),
    decreases ds.len(),
{
    if ds.len() > 0 {
        lemma_reason_all_remembers(p, ds.drop_last(), id);
        lemma_reason_remembers(p.reason_all(ds.drop_last(), id), ds.last(), id);
    }
}

proof fn lemma_xml_shows_no_reasoning(xml: Seq<char>, id: Seq<char>)
    ensures
        reasoning_text(minimax_stream::xml_chunks(xml, id)) == Seq::<char>::empty(),
    decreases xml.len(),
{
    minimax_stream::lemma_closing_tag(xml);
    match text::find_from(xml, minimax_stream::closing_tag(), 0) {
        Some(i) => {
            let end = i + minimax_stream::closing_tag().len();
            let all = minimax_stream::xml_chunks(xml, id);
            let rest = minimax_stream::xml_chunks(xml.skip(end), id);
            lemma_xml_shows_no_reasoning(xml.skip(end), id);
            let head = seq![all[0]];
            assert(all =~= head + rest);
            lemma_one(all[0]);
            lemma_texts_add(head, rest);
            assert(reasoning_text(all) =~= Seq::empty());
        },
        None => {},
    }
}

proof fn lemma_content_remembers(p: Progress, t: Seq<char>, id: Seq<char>)
    requires
        remembers(p),
    ensures
        remembers(p.content(t, id)),
{
    if text::has(t, "<minimax:tool_call>"@) || p.state.xml.len() > 0 {
        lemma_flush_remembers(p, id);
        let xml = if text::byte_len(p.state.xml) + text::byte_len(t)
            <= minimax_stream::MAX_XML_TOOL_CALL_BUFFER {
            p.state.xml + t
        } else {
            Seq::empty()
        };
        lemma_xml_shows_no_reasoning(xml, id);
        lemma_texts_add(p.flush(id).chunks, minimax_stream::xml_chunks(xml, id));
        assert(reasoning_text(p.content(t, id).chunks) =~= reasoning_text(p.flush(id).chunks));
    } else {
        lemma_outcome(p.state, t, id);
        lemma_texts_add(p.chunks, minimax_stream::content_outcome(p.state, t, id).1);
    }
}

proof fn lemma_tools_remember(p: Progress, parts: Seq<ToolPart>, id: Seq<char>)
    requires
        remembers(p),
    ensures
        remembers(p.tools(parts, id)),
    decreases parts.len(),
{
    if parts.len() > 0 {
        lemma_tools_remember(p, parts.drop_last(), id);
        lemma_flush_remembers(p.tools(parts.drop_last(), id), id);
    }
}

proof fn lemma_calls_show_no_reasoning(table: Seq<Call>, id: Option<Seq<char>>)
    ensures
        reasoning_text(calls::ready_chunks(table, id)) == Seq::<char>::empty(),
    decreases table.len(),
{
    if table.len() > 0 {
        lemma_calls_show_no_reasoning(table.drop_last(), id);
        let rest = calls::ready_chunks(table.drop_last(), id);
        let all = calls::ready_chunks(table, id);
        if calls::ready(table.last()) {
            assert(all.drop_last() =~= rest);
            assert(reasoning_text(all) =~= Seq::empty());
        }
    }
}

/// No reasoning is lost or shown twice: line by line, what is remembered as emitted
/// is the reasoning that the chunks show.
pub proof fn law_shown_reasoning_is_remembered(p: Progress, line: Seq<char>)
    requires
        remembers(p),
    ensures
        remembers(p.line(line)),
{
    let l = text::trimmed(line);
    match minimax_stream::line_event(l) {
        Some(e) => {
            let q = match e.choice {
                Some(c) => {
                    let a = match c.reasoning {
                        Some(r) => {
                            lemma_reason_remembers(p, r, e.id);
                            p.reason(r, e.id)
                        },
                        None => p,
                    };
                    lemma_reason_all_remembers(a, c.details, e.id);
                    let b = a.reason_all(c.details, e.id);
                    let d = match c.content {
                        Some(t) => {
                            lemma_content_remembers(b, t, e.id);
                            b.content(t, e.id)
                        },
                        None => b,
                    };
                    lemma_tools_remember(d, c.tools, e.id);
                    let f = d.tools(c.tools, e.id);
                    lemma_flush_remembers(f, e.id);
                    let g = f.flush(e.id);
                    lemma_calls_show_no_reasoning(g.state.calls, Some(e.id));
                    lemma_texts_add(g.chunks, calls::ready_chunks(g.state.calls, Some(e.id)));
                    assert(reasoning_text(g.chunks) + Seq::<char>::empty() =~= reasoning_text(
                        g.chunks,
                    ));
                    assert(remembers(f.end(c.finish, e.id)));
                    p.choice(c, e.id)
                },
                None => p,
            };
            assert(remembers(q));
            if e.usage is Some {
                let chunks = p.event(e).chunks;
                assert(chunks.drop_last() =~= q.chunks);
                assert(reasoning_text(chunks) =~= reasoning_text(q.chunks));
            }
        },
        None => {
            let chunks = p.line(line).chunks;
            if chunks.len() > p.chunks.len() {
                assert(chunks.drop_last() =~= p.chunks);
                assert(reasoning_text(chunks) =~= reasoning_text(p.chunks));
            }
        },
    }
}

/// Lines keep the table of calls in order and every call within the size limit.
pub proof fn law_lines_keep_calls_in_order(p: Progress, line: Seq<char>)
    requires
        calls::in_order(p.state.calls),
    ensures
        calls::in_order(p.line(line).state.calls),
{
    let l = text::trimmed(line);
    if let Some(e) = minimax_stream::line_event(l) {
        if let Some(c) = e.choice {
            let a = match c.reasoning {
                Some(r) => p.reason(r, e.id),
                None => p,
            };
            lemma_reason_all_keeps_calls(a, c.details, e.id);
            let b = a.reason_all(c.details, e.id);
            let d = match c.content {
                Some(t) => {
                    let z = Mini { carry: Seq::empty(), ..b.state };
                    lemma_content_keeps_calls(z, b.state.carry + t, e.id);
                    b.content(t, e.id)
                },
                None => b,
            };
            lemma_tools_keep_order(d, c.tools, e.id);
            calls::law_handed_out_keeps_order(d.tools(c.tools, e.id).state.calls);
        }
    }
}

proof fn lemma_reason_all_keeps_calls(p: Progress, ds: Seq<Seq<char>>, id: Seq<char>)
    ensures
        p.reason_all(ds, id).state.calls == p.state.calls,
    decreases ds.len(),
{
    if ds.len() > 0 {
        lemma_reason_all_keeps_calls(p, ds.drop_last(), id);
    }
}

proof fn lemma_content_keeps_calls(s: Mini, rest: Seq<char>, id: Seq<char>)
    ensures
        minimax_stream::content_steps(s, rest, id).state.calls == s.calls,
    decreases rest.len(),
{
    if rest.len() > 0 {
        minimax_stream::lemma_next_marker(rest, s.in_tag);
        match minimax_stream::next_marker(rest, s.in_tag) {
            Some((i, n)) => {
                if !s.in_tag {
                    let shown = Mini {
                        pending: s.pending + rest.take(i),
                        signature: Some(id),
                        ..s
                    };
                    lemma_content_keeps_calls(
                        Mini { in_tag: true, ..minimax_stream::flushed(shown) },
                        rest.skip(i + n),
                        id,
                    );
                } else {
                    lemma_content_keeps_calls(
                        Mini { in_tag: false, ..minimax_stream::reasoned(s, rest.take(i)) },
                        rest.skip(i + n),
                        id,
                    );
                }
            },
            None => {},
        }
    }
}

proof fn lemma_tools_keep_order(p: Progress, parts: Seq<ToolPart>, id: Seq<char>)
    requires
        calls::in_order(p.state.calls),
    ensures
        calls::in_order(p.tools(parts, id).state.calls),
    decreases parts.len(),
{
    if parts.len() > 0 {
        lemma_tools_keep_order(p, parts.drop_last(), id);
        minimax_stream::law_part_keeps_order(
            p.tools(parts.drop_last(), id).state.calls,
            parts.last(),
        );
    }
}

} // verus!
