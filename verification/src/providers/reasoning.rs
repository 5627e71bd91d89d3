//! Reasoning deltas: removing the part of a delta that repeats what was emitted.

use crate::text;
use vstd::prelude::*;

verus! {

/// The largest `n` up to `k` such that `left` ends with the first `n` characters
/// of `right`.
pub open spec fn overlap_up_to(left: Seq<char>, right: Seq<char>, k: int) -> int
    decreases k,
{
    if k <= 0 {
        0
    } else if left.skip(left.len() - k) =~= right.take(k) {
        k
    } else {
        overlap_up_to(left, right, k - 1)
    }
}

/// The number of characters in the longest suffix of `left` that `right` starts
/// with.
pub open spec fn overlap(left: Seq<char>, right: Seq<char>) -> int {
    overlap_up_to(
        left,
        right,
        if left.len() <= right.len() {
            left.len() as int
        } else {
            right.len() as int
        },
    )
}

/// What is new in a delta: what follows the part that repeats the end of what was
/// emitted.
pub open spec fn fresh(emitted: Seq<char>, delta: Seq<char>) -> Seq<char> {
    delta.skip(overlap(emitted, delta))
}

/// The overlap is a suffix of the one and a prefix of the other, and no longer one
/// is.
pub proof fn law_overlap_is_longest(left: Seq<char>, right: Seq<char>)
    ensures
        0 <= overlap(left, right) <= left.len(),
        overlap(left, right) <= right.len(),
        left.skip(left.len() - overlap(left, right)) == right.take(overlap(left, right)),
        forall|n: int|
            overlap(left, right) < n <= left.len() && n <= right.len() ==> #[trigger] left.skip(
                left.len() - n,
            ) != right.take(n),
{
    lemma_overlap_up_to(
        left,
        right,
        if left.len() <= right.len() {
            left.len() as int
        } else {
            right.len() as int
        },
    );
}

proof fn lemma_overlap_up_to(left: Seq<char>, right: Seq<char>, k: int)
    requires
        0 <= k <= left.len(),
        k <= right.len(),
    ensures
        0 <= overlap_up_to(left, right, k) <= k,
        left.skip(left.len() - overlap_up_to(left, right, k)) == right.take(
            overlap_up_to(left, right, k),
        ),
        forall|n: int|
            overlap_up_to(left, right, k) < n <= k ==> #[trigger] left.skip(left.len() - n)
                != right.take(n),
    decreases k,
{
    if k > 0 && !(left.skip(left.len() - k) =~= right.take(k)) {
        lemma_overlap_up_to(left, right, k - 1);
    } else if k == 0 {
        assert(left.skip(left.len() as int) =~= right.take(0));
    }
}

/// Removing the repeated part loses nothing and repeats nothing: what was emitted
/// and what is new together end with the delta.
pub proof fn law_fresh_completes_delta(emitted: Seq<char>, delta: Seq<char>)
    ensures
        (emitted + fresh(emitted, delta)).skip(
            emitted.len() - overlap(emitted, delta),
        ) == delta,
{
    law_overlap_is_longest(emitted, delta);
    let k = overlap(emitted, delta);
    assert(delta.take(k) + delta.skip(k) =~= delta);
    assert((emitted + delta.skip(k)).skip(emitted.len() - k) =~= emitted.skip(emitted.len() - k)
        + delta.skip(k));
}

/// Whether the last `k` characters of `left` are the first `k` of `right`.
fn overlaps_by(left: &Vec<char>, right: &Vec<char>, k: usize) -> (r: bool)
    requires
        k <= left@.len(),
        k <= right@.len(),
    ensures
        r == (left@.skip(left@.len() - k) == right@.take(k as int)),
{
    let mut i: usize = 0;
    while i < k
        invariant
            i <= k <= left@.len(),
            k <= right@.len(),
            forall|j: int| 0 <= j < i ==> left@[left@.len() - k + j] == right@[j],
        decreases k - i,
    {
        if left[left.len() - k + i] != right[i] {
            assert(left@.skip(left@.len() - k)[i as int] != right@.take(k as int)[i as int]);
            return false;
        }
        i = i + 1;
    }
    assert(left@.skip(left@.len() - k) =~= right@.take(k as int));
    true
}

/// The number of characters in the longest suffix of `left` that `right` starts
/// with.
pub fn overlap_chars(left: &Vec<char>, right: &Vec<char>) -> (n: usize)
    ensures
        n == overlap(left@, right@),
        n <= left@.len(),
        n <= right@.len(),
{
    let mut k: usize = if left.len() <= right.len() {
        left.len()
    } else {
        right.len()
    };
    while k > 0
        invariant
            k <= left@.len(),
            k <= right@.len(),
            overlap_up_to(left@, right@, k as int) == overlap(left@, right@),
        decreases k,
    {
        if overlaps_by(left, right, k) {
            return k;
        }
        k = k - 1;
    }
    0
}

/// The number of bytes in the longest suffix of `left` that `right` starts with,
/// at character boundaries of both.
pub fn longest_reasoning_overlap(left: &str, right: &str) -> (n: usize)
    ensures
        n == text::byte_len(right@.take(overlap(left@, right@))),
{
    let lv = text::chars_of(left);
    let rv = text::chars_of(right);
    let k: usize = overlap_chars(&lv, &rv);
    let part = text::substring(&rv, 0, k);
    assert(part@ =~= right@.take(k as int));
    text::byte_count(part.as_str())
}

/// What is new in a reasoning delta, which is appended to what was emitted.
/// Nothing is emitted where nothing is new.
pub fn normalize_reasoning_delta(emitted: &mut String, reasoning: String) -> (r: Option<String>)
    ensures
        fresh(old(emitted)@, reasoning@).len() == 0 ==> r is None && final(emitted)@ == old(
            emitted,
        )@,
        fresh(old(emitted)@, reasoning@).len() > 0 ==> text::opt(r) == Some(
            fresh(old(emitted)@, reasoning@),
        ) && final(emitted)@ == old(emitted)@ + fresh(old(emitted)@, reasoning@),
{
    let v = text::chars_of(reasoning.as_str());
    if v.len() == 0 {
        assert(fresh(emitted@, reasoning@) =~= Seq::empty());
        return None;
    }
    let ev = text::chars_of(emitted.as_str());
    let k: usize = overlap_chars(&ev, &v);
    assert(v@.subrange(k as int, v@.len() as int) =~= fresh(emitted@, reasoning@));
    if k == v.len() {
        return None;
    }
    let normalized = text::substring(&v, k, v.len());
    text::push_text(emitted, normalized.as_str());
    Some(normalized)
}

// ---------------------------------------------------------------------------
// Markers at the end of a text
// ---------------------------------------------------------------------------

/// The last `k` characters of `s` are the beginning, and not the whole, of a
/// marker.
pub open spec fn is_partial(s: Seq<char>, markers: Seq<Seq<char>>, k: int) -> bool {
    exists|m: int|
        0 <= m < markers.len() && (#[trigger] markers[m]).len() > k && text::begins(
            markers[m],
            s.skip(s.len() - k),
        )
}

/// The largest `n` from 1 up to `k` such that the last `n` characters of `s` begin
/// a marker, or 0.
pub open spec fn partial_up_to(s: Seq<char>, markers: Seq<Seq<char>>, k: int) -> int
    decreases k,
{
    if k <= 0 {
        0
    } else if is_partial(s, markers, k) {
        k
    } else {
        partial_up_to(s, markers, k - 1)
    }
}

/// The number of characters in the longest suffix of `s` that begins a marker.
pub open spec fn partial_suffix(s: Seq<char>, markers: Seq<Seq<char>>) -> int {
    partial_up_to(s, markers, s.len() as int)
}

/// The texts of a list of markers.
pub open spec fn marker_texts(markers: Seq<&str>) -> Seq<Seq<char>> {
    markers.map_values(|m: &str| m@)
}

pub proof fn lemma_partial_up_to(s: Seq<char>, markers: Seq<Seq<char>>, k: int)
    requires
        0 <= k <= s.len(),
    ensures
        0 <= partial_up_to(s, markers, k) <= k,
        partial_up_to(s, markers, k) > 0 ==> is_partial(s, markers, partial_up_to(s, markers, k)),
        forall|n: int|
            partial_up_to(s, markers, k) < n <= k ==> !#[trigger] is_partial(s, markers, n),
    decreases k,
{
    if k > 0 && !is_partial(s, markers, k) {
        lemma_partial_up_to(s, markers, k - 1);
    }
}

/// Whether the last `k` characters begin one of the markers.
fn begins_marker(v: &Vec<char>, markers: &[&str], k: usize) -> (r: bool)
    requires
        k <= v@.len(),
    ensures
        r == is_partial(v@, marker_texts(markers@), k as int),
{
    let tail_text = text::substring(v, v.len() - k, v.len());
    let tail = text::chars_of(tail_text.as_str());
    assert(tail@ =~= v@.skip(v@.len() - k));
    let mut m: usize = 0;
    while m < markers.len()
        invariant
            m <= markers@.len(),
            tail@ == v@.skip(v@.len() - k),
            k <= v@.len(),
            tail@.len() == k,
            forall|j: int|
                0 <= j < m ==> !((#[trigger] marker_texts(markers@)[j]).len() > k && text::begins(
                    marker_texts(markers@)[j],
                    v@.skip(v@.len() - k),
                )),
        decreases markers@.len() - m,
    {
        let marker = text::chars_of(markers[m]);
        assert(marker_texts(markers@)[m as int] == marker@);
        if marker.len() > k && text::stands_at(&marker, &tail, 0) {
            return true;
        }
        m = m + 1;
    }
    false
}

/// The number of characters of the longest marker.
fn longest_marker(markers: &[&str]) -> (n: usize)
    ensures
        forall|j: int|
            0 <= j < markers@.len() ==> (#[trigger] marker_texts(markers@)[j]).len() <= n,
{
    let mut n: usize = 0;
    let mut m: usize = 0;
    while m < markers.len()
        invariant
            m <= markers@.len(),
            forall|j: int| 0 <= j < m ==> (#[trigger] marker_texts(markers@)[j]).len() <= n,
        decreases markers@.len() - m,
    {
        let marker = text::chars_of(markers[m]);
        assert(marker_texts(markers@)[m as int] == marker@);
        if marker.len() > n {
            n = marker.len();
        }
        m = m + 1;
    }
    n
}

/// The number of characters in the longest suffix that begins a marker.
pub fn partial_marker_suffix_chars(v: &Vec<char>, markers: &[&str]) -> (n: usize)
    ensures
        n == partial_suffix(v@, marker_texts(markers@)),
        n <= v@.len(),
{
    let longest: usize = longest_marker(markers);
    let mut k: usize = v.len();
    while k > longest
        invariant
            k <= v@.len(),
            forall|j: int|
                0 <= j < markers@.len() ==> (#[trigger] marker_texts(markers@)[j]).len() <= longest,
            partial_up_to(v@, marker_texts(markers@), k as int) == partial_suffix(
                v@,
                marker_texts(markers@),
            ),
        decreases k,
    {
        k = k - 1;
    }
    while k > 0
        invariant
            k <= v@.len(),
            partial_up_to(v@, marker_texts(markers@), k as int) == partial_suffix(
                v@,
                marker_texts(markers@),
            ),
        decreases k,
    {
        if begins_marker(v, markers, k) {
            return k;
        }
        k = k - 1;
    }
    0
}

/// The number of bytes in the longest suffix of a text that is the beginning, and
/// not the whole, of a marker.
pub fn partial_marker_suffix_len(s: &str, markers: &[&str]) -> (n: usize)
    ensures
        n == text::byte_len(
            s@.skip(s@.len() - partial_suffix(s@, marker_texts(markers@))),
        ),
{
    let v = text::chars_of(s);
    let k: usize = partial_marker_suffix_chars(&v, markers);
    let part = text::substring(&v, v.len() - k, v.len());
    assert(part@ =~= s@.skip(s@.len() - k));
    text::byte_count(part.as_str())
}

} // verus!
