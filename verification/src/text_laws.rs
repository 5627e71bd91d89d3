//! What the operations on texts are for: trimming takes white space and nothing else,
//! numbers read back as they were written, and pieces join and split without loss.

use crate::text;
use vstd::prelude::*;

verus! {

/// Trimming takes white space off both ends and nothing else: what is left stands in the
/// text, everything before and after it is white space, and it has none at its ends.
pub proof fn law_trimming_takes_white_space(s: Seq<char>)
    ensures
        exists|i: int, j: int|
            0 <= i <= j <= s.len() && text::trimmed(s) == #[trigger] s.subrange(i, j) && (forall|
                k: int,
            |
                0 <= k < i || j <= k < s.len() ==> text::is_white(#[trigger] s[k])),
        text::trimmed(s).len() > 0 ==> !text::is_white(text::trimmed(s)[0]) && !text::is_white(
            text::trimmed(s).last(),
        ),
{
    lemma_front(s);
    let t = text::trimmed_start(s);
    let i = s.len() - t.len();
    lemma_back(t);
    let u = text::trimmed(s);
    let j = i + u.len();
    assert(u =~= s.subrange(i, j));
    assert forall|k: int| 0 <= k < i || j <= k < s.len() implies text::is_white(
        #[trigger] s[k],
    ) by {
        if j <= k {
            assert(t[k - i] == s[k]);
        }
    }
}

proof fn lemma_front(s: Seq<char>)
    ensures
        ({
            let t = text::trimmed_start(s);
            let n = s.len() - t.len();
            &&& 0 <= n
            &&& t == s.skip(n)
            &&& forall|i: int| 0 <= i < n ==> text::is_white(#[trigger] s[i])
            &&& t.len() > 0 ==> !text::is_white(t[0])
        }),
    decreases s.len(),
{
    if s.len() > 0 && text::is_white(s[0]) {
        let q = s.drop_first();
        lemma_front(q);
        let t = text::trimmed_start(s);
        let n = s.len() - t.len();
        assert(t =~= s.skip(n));
        assert forall|i: int| 0 <= i < n implies text::is_white(#[trigger] s[i]) by {
            if i > 0 {
                assert(q[i - 1] == s[i]);
            }
        }
    } else {
        assert(s.skip(0) =~= s);
    }
}

proof fn lemma_back(s: Seq<char>)
    ensures
        ({
            let t = text::trimmed_end(s);
            &&& t.len() <= s.len()
            &&& t == s.take(t.len() as int)
            &&& forall|i: int| t.len() <= i < s.len() ==> text::is_white(#[trigger] s[i])
            &&& t.len() > 0 ==> !text::is_white(t.last())
        }),
    decreases s.len(),
{
    if s.len() > 0 && text::is_white(s.last()) {
        let q = s.drop_last();
        lemma_back(q);
        let t = text::trimmed_end(s);
        assert(t =~= s.take(t.len() as int));
        assert forall|i: int| t.len() <= i < s.len() implies text::is_white(#[trigger] s[i]) by {
            if i < q.len() {
                assert(q[i] == s[i]);
            }
        }
    } else {
        assert(s.take(s.len() as int) =~= s);
    }
}

/// A number reads back as it was written.
pub proof fn law_numbers_read_back(n: u64)
    ensures
        text::parsed_u64(text::decimal(n as nat)) == Some(n),
{
    lemma_decimal(n as nat);
    let d = text::decimal(n as nat);
    assert(text::is_digit(d[0]));
    assert(text::number_digits(d) == d);
}

proof fn lemma_decimal(n: nat)
    ensures
        text::decimal(n).len() > 0,
        forall|i: int|
            0 <= i < text::decimal(n).len() ==> text::is_digit(#[trigger] text::decimal(n)[i]),
        text::digits_value(text::decimal(n)) == n,
    decreases n,
{
    let d = text::decimal(n);
    if n < 10 {
        assert(d.drop_last() =~= Seq::<char>::empty());
        assert(text::digits_value(Seq::<char>::empty()) == 0);
        assert(d.last() == text::digit(n));
    } else {
        lemma_decimal(n / 10);
        let p = text::decimal(n / 10);
        assert(d.drop_last() =~= p);
        assert(d.last() == text::digit(n % 10));
        assert(n == (n / 10) * 10 + n % 10);
        assert forall|i: int| 0 <= i < d.len() implies text::is_digit(#[trigger] d[i]) by {
            if i < p.len() {
                assert(d[i] == p[i]);
            }
        }
    }
}

/// Different numbers are written differently.
pub proof fn law_numbers_are_told_apart(a: nat, b: nat)
    requires
        text::decimal(a) == text::decimal(b),
    ensures
        a == b,
{
    lemma_decimal(a);
    lemma_decimal(b);
}

/// Pieces that are split off at a character join to the text again.
pub proof fn law_split_pieces_join(s: Seq<char>, c: char)
    ensures
        text::split_at_char(s, c).len() > 0,
        text::joined(text::split_at_char(s, c), seq![c]) == s,
        forall|i: int|
            0 <= i < text::split_at_char(s, c).len() ==> !(#[trigger] text::split_at_char(
                s,
                c,
            )[i]).contains(c),
    decreases s.len(),
{
    let all = text::split_at_char(s, c);
    if s.len() == 0 {
        assert(all =~= seq![Seq::<char>::empty()]);
        assert(text::joined(all, seq![c]) =~= s);
    } else {
        let p = s.drop_last();
        law_split_pieces_join(p, c);
        let few = text::split_at_char(p, c);
        if s.last() == c {
            assert(all.drop_last() =~= few);
            assert(text::joined(all, seq![c]) =~= s);
            assert forall|i: int| 0 <= i < all.len() implies !(#[trigger] all[i]).contains(c) by {
                if i < few.len() {
                    assert(!few[i].contains(c));
                }
            }
        } else {
            let piece = few.last().push(s.last());
            assert(all.drop_last() =~= few.drop_last());
            assert(all.last() == piece);
            assert(p.push(s.last()) =~= s);
            if few.len() == 1 {
                assert(text::joined(few, seq![c]) == few[0]);
                assert(all[0] == piece);
                assert(text::joined(all, seq![c]) == piece);
            } else {
                let front = text::joined(few.drop_last(), seq![c]) + seq![c];
                assert(text::joined(few, seq![c]) == front + few.last());
                assert(text::joined(all, seq![c]) == front + piece);
                assert(front + piece =~= (front + few.last()).push(s.last()));
            }
            assert forall|i: int| 0 <= i < all.len() implies !(#[trigger] all[i]).contains(c) by {
                if i < few.len() - 1 {
                    assert(!few[i].contains(c));
                } else {
                    assert(!few[few.len() - 1].contains(c));
                    if piece.contains(c) {
                        let k = choose|k: int| 0 <= k < piece.len() && piece[k] == c;
                        if k < few.last().len() {
                            assert(few.last()[k] == c);
                        }
                    }
                }
            }
        }
    }
}

/// Each part of a joined text stands in it, after what the parts before it join to.
pub proof fn law_joined_parts_stand_in_order(v: Seq<Seq<char>>, t: Seq<char>, sep: Seq<char>)
    ensures
        text::joined(Seq::empty(), sep).len() == 0,
        text::joined(seq![t], sep) == t,
        v.len() > 0 ==> text::joined(v.push(t), sep) == text::joined(v, sep) + sep + t,
{
    assert(v.push(t).drop_last() =~= v);
}

/// A text is cut at a character boundary: what is kept is its front, takes no more bytes
/// than the limit, and one character more would take too many.
pub proof fn law_cut_text_is_the_longest_front(s: Seq<char>, limit: int)
    requires
        limit >= 0,
    ensures
        ({
            let h = text::head_bytes(s, limit);
            &&& h.len() <= s.len()
            &&& h == s.take(h.len() as int)
            &&& text::byte_len(h) <= limit
            &&& h.len() < s.len() ==> text::byte_len(s.take(h.len() as int + 1)) > limit
        }),
    decreases s.len(),
{
    let h = text::head_bytes(s, limit);
    if text::byte_len(s) <= limit || s.len() == 0 {
        assert(s.take(s.len() as int) =~= s);
    } else {
        let p = s.drop_last();
        law_cut_text_is_the_longest_front(p, limit);
        assert(h =~= s.take(h.len() as int));
        if h.len() < p.len() {
            assert(p.take(h.len() as int + 1) =~= s.take(h.len() as int + 1));
        } else {
            assert(s.take(s.len() as int) =~= s);
        }
    }
}

/// Nothing is left of a run of a character at the back of a text, and nothing else goes.
pub proof fn law_tail_is_a_run(s: Seq<char>, c: char)
    ensures
        ({
            let t = text::without_tail(s, c);
            &&& t.len() <= s.len()
            &&& t == s.take(t.len() as int)
            &&& forall|i: int| t.len() <= i < s.len() ==> #[trigger] s[i] == c
            &&& t.len() > 0 ==> t.last() != c
        }),
    decreases s.len(),
{
    if s.len() > 0 && s.last() == c {
        let p = s.drop_last();
        law_tail_is_a_run(p, c);
        let t = text::without_tail(s, c);
        assert(t =~= s.take(t.len() as int));
        assert forall|i: int| t.len() <= i < s.len() implies #[trigger] s[i] == c by {
            if i < p.len() {
                assert(p[i] == s[i]);
            }
        }
    } else {
        assert(s.take(s.len() as int) =~= s);
    }
}

/// A letter of the alphabet is made small, anything else stays.
pub proof fn law_small_letters(s: Seq<char>, i: int)
    requires
        0 <= i < s.len(),
    ensures
        text::ascii_lowered(s).len() == s.len(),
        ({
            let c = text::ascii_lowered(s)[i];
            &&& 'A' <= s[i] <= 'Z' ==> c as u32 == s[i] as u32 + 32
            &&& !('A' <= s[i] <= 'Z') ==> c == s[i]
        }),
{
}

/// The lines of a text with a line more are its lines and that line.
pub proof fn law_lines_are_split_at_line_ends(s: Seq<char>, l: Seq<char>)
    requires
        !l.contains('\n'),
        s.len() == 0 || s.last() == '\n',
        l.len() > 0,
        l.last() != '\r',
    ensures
        text::text_lines(s + l) == text::text_lines(s).push(l),
        text::text_lines(s + l + seq!['\n']) == text::text_lines(s).push(l),
{
    lemma_last_piece(s, l);
    let a = text::split_at_char(s, '\n');
    let b = text::split_at_char(s + l, '\n');
    law_split_pieces_join(s, '\n');
    assert(a.last().len() == 0);
    assert(b =~= a.drop_last().push(l));
    let whole = s + l + seq!['\n'];
    assert(whole.drop_last() =~= s + l);
    let d = text::split_at_char(whole, '\n');
    assert(d =~= b.push(Seq::<char>::empty()));
    assert(d.drop_last() =~= b);
    let f = |x: Seq<char>| text::without_return(x);
    let before = a.drop_last().map_values(f);
    assert(b.drop_last() =~= a.drop_last());
    assert(text::text_lines(s) =~= before);
    assert(text::text_lines(s + l) =~= before.push(l));
    assert(b.map_values(f) =~= before.push(l));
    assert(text::text_lines(whole) =~= before.push(l));
}

proof fn lemma_last_piece(s: Seq<char>, l: Seq<char>)
    requires
        !l.contains('\n'),
        s.len() == 0 || s.last() == '\n',
    ensures
        text::split_at_char(s, '\n').len() > 0,
        text::split_at_char(s, '\n').last().len() == 0,
        text::split_at_char(s + l, '\n') == text::split_at_char(s, '\n').drop_last().push(l),
    decreases l.len(),
{
    law_split_pieces_join(s, '\n');
    let a = text::split_at_char(s, '\n');
    if l.len() == 0 {
        assert(s + l =~= s);
        assert(a.last() =~= l);
        assert(a =~= a.drop_last().push(l));
    } else {
        let p = l.drop_last();
        assert(!p.contains('\n')) by {
            if p.contains('\n') {
                let k = choose|k: int| 0 <= k < p.len() && p[k] == '\n';
                assert(l[k] == '\n');
            }
        }
        lemma_last_piece(s, p);
        assert(l[l.len() - 1] == l.last());
        assert(l.contains(l.last()));
        assert((s + l).drop_last() =~= s + p);
        assert((s + l).last() == l.last());
        let b = text::split_at_char(s + p, '\n');
        assert(b.drop_last() =~= a.drop_last());
        assert(p.push(l.last()) =~= l);
    }
}

} // verus!
