//! Text as sequences of characters: searching, trimming, splitting, numbers.

use vstd::prelude::*;
use vstd::string::*;

verus! {

// ---------------------------------------------------------------------------
// What the operations mean
// ---------------------------------------------------------------------------

/// `p` stands in `s` at position `i`.
pub open spec fn matches_at(s: Seq<char>, p: Seq<char>, i: int) -> bool {
    0 <= i && i + p.len() <= s.len() && s.subrange(i, i + p.len()) =~= p
}

/// `p` occurs somewhere in `s`.
pub open spec fn has(s: Seq<char>, p: Seq<char>) -> bool {
    exists|i: int| #[trigger] matches_at(s, p, i)
}

/// `s` begins with `p`.
pub open spec fn begins(s: Seq<char>, p: Seq<char>) -> bool {
    matches_at(s, p, 0)
}

/// `s` ends with `p`.
pub open spec fn ends(s: Seq<char>, p: Seq<char>) -> bool {
    matches_at(s, p, s.len() - p.len())
}

/// The first position at or after `from` where `p` stands in `s`.
pub open spec fn find_from(s: Seq<char>, p: Seq<char>, from: int) -> Option<int>
    decreases s.len() - from,
{
    if from < 0 || from + p.len() > s.len() {
        None
    } else if matches_at(s, p, from) {
        Some(from)
    } else {
        find_from(s, p, from + 1)
    }
}

/// `s` with every occurrence of `p`, found from the left, replaced by `r`;
/// the search starts at `from` and the text before `from` is left out.
pub open spec fn replaced_from(s: Seq<char>, p: Seq<char>, r: Seq<char>, from: int) -> Seq<char>
    decreases s.len() - from,
{
    if from < 0 || from >= s.len() || p.len() == 0 {
        Seq::empty()
    } else if matches_at(s, p, from) {
        r + replaced_from(s, p, r, from + p.len())
    } else {
        seq![s[from]] + replaced_from(s, p, r, from + 1)
    }
}

/// The characters with the Unicode property `White_Space`.
pub open spec fn is_white(c: char) -> bool {
    ||| 0x09 <= c as u32 <= 0x0d
    ||| c as u32 == 0x20
    ||| c as u32 == 0x85
    ||| c as u32 == 0xa0
    ||| c as u32 == 0x1680
    ||| 0x2000 <= c as u32 <= 0x200a
    ||| c as u32 == 0x2028
    ||| c as u32 == 0x2029
    ||| c as u32 == 0x202f
    ||| c as u32 == 0x205f
    ||| c as u32 == 0x3000
}

/// `s` without the white space at its front.
pub open spec fn trimmed_start(s: Seq<char>) -> Seq<char>
    decreases s.len(),
{
    if s.len() > 0 && is_white(s[0]) {
        trimmed_start(s.drop_first())
    } else {
        s
    }
}

/// `s` without the white space at its back.
pub open spec fn trimmed_end(s: Seq<char>) -> Seq<char>
    decreases s.len(),
{
    if s.len() > 0 && is_white(s.last()) {
        trimmed_end(s.drop_last())
    } else {
        s
    }
}

/// `s` without the white space at either end.
pub open spec fn trimmed(s: Seq<char>) -> Seq<char> {
    trimmed_end(trimmed_start(s))
}

/// `s` without the run of `c` at its back.
pub open spec fn without_tail(s: Seq<char>, c: char) -> Seq<char>
    decreases s.len(),
{
    if s.len() > 0 && s.last() == c {
        without_tail(s.drop_last(), c)
    } else {
        s
    }
}

/// What is left has no `c` at its back, and a text without one stays as it is.
pub proof fn lemma_without_tail(s: Seq<char>, c: char)
    ensures
        without_tail(s, c).len() > 0 ==> without_tail(s, c).last() != c,
        s.len() > 0 && s.last() != c ==> without_tail(s, c) == s,
    decreases s.len(),
{
    if s.len() > 0 && s.last() == c {
        lemma_without_tail(s.drop_last(), c);
    }
}

/// A text without white space at its ends stays as it is.
pub proof fn lemma_nothing_to_trim(s: Seq<char>)
    requires
        s.len() > 0,
        !is_white(s[0]),
        !is_white(s.last()),
    ensures
        trimmed(s) == s,
{
}

/// A trimmed text has no white space at its ends.
pub proof fn lemma_trimmed_ends(s: Seq<char>)
    requires
        s.len() > 0,
        trimmed(s) == s,
    ensures
        !is_white(s[0]),
        !is_white(s.last()),
{
    let t = trimmed_start(s);
    lemma_trimmed_start_len(s);
    lemma_trimmed_end_len(t);
}

proof fn lemma_trimmed_start_len(s: Seq<char>)
    ensures
        trimmed_start(s).len() <= s.len(),
        s.len() > 0 && is_white(s[0]) ==> trimmed_start(s).len() < s.len(),
    decreases s.len(),
{
    if s.len() > 0 && is_white(s[0]) {
        lemma_trimmed_start_len(s.drop_first());
    }
}

proof fn lemma_trimmed_end_len(s: Seq<char>)
    ensures
        trimmed_end(s).len() <= s.len(),
        s.len() > 0 && is_white(s.last()) ==> trimmed_end(s).len() < s.len(),
    decreases s.len(),
{
    if s.len() > 0 && is_white(s.last()) {
        lemma_trimmed_end_len(s.drop_last());
    }
}

/// The white space at the front of `s`.
pub open spec fn leading_white(s: Seq<char>) -> Seq<char> {
    s.take(s.len() - trimmed_start(s).len())
}

/// The number of bytes that UTF-8 uses for a character.
pub open spec fn width(c: char) -> nat {
    if (c as u32) < 0x80 {
        1
    } else if (c as u32) < 0x800 {
        2
    } else if (c as u32) < 0x10000 {
        3
    } else {
        4
    }
}

/// The number of bytes that UTF-8 uses for a text.
pub open spec fn byte_len(s: Seq<char>) -> nat
    decreases s.len(),
{
    if s.len() == 0 {
        0
    } else {
        byte_len(s.drop_last()) + width(s.last())
    }
}

/// The longest prefix of `s` that takes at most `limit` bytes.
pub open spec fn head_bytes(s: Seq<char>, limit: int) -> Seq<char>
    decreases s.len(),
{
    if byte_len(s) <= limit || s.len() == 0 {
        s
    } else {
        head_bytes(s.drop_last(), limit)
    }
}

/// The decimal digits of a number.
pub open spec fn decimal(n: nat) -> Seq<char>
    decreases n,
{
    if n < 10 {
        seq![digit(n)]
    } else {
        decimal(n / 10).push(digit(n % 10))
    }
}

/// The digit character of a number below ten.
pub open spec fn digit(d: nat) -> char {
    ('0' as u32 + d) as char
}

/// The digits of a fraction given in millionths, without the zeros at its back
/// but with one digit at least.
pub open spec fn fraction_digits(n: nat, places: nat) -> Seq<char>
    decreases places,
{
    if places <= 1 || n % 10 != 0 {
        padded(n, places)
    } else {
        fraction_digits(n / 10, (places - 1) as nat)
    }
}

/// The lowest `places` decimal digits of a number.
pub open spec fn padded(n: nat, places: nat) -> Seq<char>
    decreases places,
{
    if places == 0 {
        Seq::empty()
    } else {
        padded(n / 10, (places - 1) as nat).push(digit(n % 10))
    }
}

/// The decimal text of a number given in millionths: `0.7` for 700000.
pub open spec fn micro_decimal(n: nat) -> Seq<char> {
    decimal(n / 1_000_000) + seq!['.'] + fraction_digits(n % 1_000_000, 6)
}

pub open spec fn is_digit(c: char) -> bool {
    '0' <= c <= '9'
}

/// The number that a run of decimal digits denotes.
pub open spec fn digits_value(s: Seq<char>) -> nat
    decreases s.len(),
{
    if s.len() == 0 {
        0
    } else {
        digits_value(s.drop_last()) * 10 + (s.last() as u32 - '0' as u32) as nat
    }
}

/// The digits of a number text, after an optional plus sign.
pub open spec fn number_digits(s: Seq<char>) -> Seq<char> {
    if s.len() > 1 && s[0] == '+' {
        s.drop_first()
    } else {
        s
    }
}

/// The unsigned 64-bit number that a text denotes, if it denotes one.
pub open spec fn parsed_u64(s: Seq<char>) -> Option<u64> {
    let d = number_digits(s);
    if d.len() > 0 && (forall|i: int| 0 <= i < d.len() ==> is_digit(#[trigger] d[i]))
        && digits_value(d) <= u64::MAX {
        Some(digits_value(d) as u64)
    } else {
        None
    }
}

/// The pieces of `s` between the occurrences of `c`, from position `from` on.
pub open spec fn split_at_char(s: Seq<char>, c: char) -> Seq<Seq<char>>
    decreases s.len(),
{
    if s.len() == 0 {
        seq![Seq::<char>::empty()]
    } else {
        let rest = split_at_char(s.drop_last(), c);
        if s.last() == c {
            rest.push(Seq::<char>::empty())
        } else {
            rest.drop_last().push(rest.last().push(s.last()))
        }
    }
}

/// A line without the carriage return at its end.
pub open spec fn without_return(s: Seq<char>) -> Seq<char> {
    if s.len() > 0 && s.last() == '\r' {
        s.drop_last()
    } else {
        s
    }
}

/// The lines of a text: what stands between line feeds, each without a
/// carriage return at its end; nothing follows a line feed at the very end.
pub open spec fn text_lines(s: Seq<char>) -> Seq<Seq<char>> {
    let pieces = split_at_char(s, '\n');
    let all = if pieces.last().len() == 0 {
        pieces.drop_last().map_values(|l: Seq<char>| without_return(l))
    } else {
        pieces.drop_last().map_values(|l: Seq<char>| without_return(l)).push(pieces.last())
    };
    all
}

/// The texts of `parts` with `sep` between neighbours.
pub open spec fn joined(parts: Seq<Seq<char>>, sep: Seq<char>) -> Seq<char>
    decreases parts.len(),
{
    if parts.len() == 0 {
        Seq::empty()
    } else if parts.len() == 1 {
        parts[0]
    } else {
        joined(parts.drop_last(), sep) + sep + parts.last()
    }
}

/// The text of an optional string.
pub open spec fn opt(s: Option<String>) -> Option<Seq<char>> {
    match s {
        Some(t) => Some(t@),
        None => None,
    }
}

/// The texts of a sequence of strings.
pub open spec fn texts(v: Seq<String>) -> Seq<Seq<char>> {
    v.map_values(|s: String| s@)
}

/// The texts of a sequence of pairs of strings.
pub open spec fn pair_texts(v: Seq<(String, String)>) -> Seq<(Seq<char>, Seq<char>)> {
    v.map_values(|p: (String, String)| (p.0@, p.1@))
}

/// The characters that ASCII maps to their lower case.
pub open spec fn ascii_lower(c: char) -> char {
    if 'A' <= c <= 'Z' {
        (c as u32 + 32) as char
    } else {
        c
    }
}

// ---------------------------------------------------------------------------
// Operations of the standard library
// ---------------------------------------------------------------------------

/// What `str::to_lowercase` makes of a text: Unicode's full lower-case mapping.
pub uninterp spec fn lowercased(s: Seq<char>) -> Seq<char>;

/// Calls `str::to_lowercase`. The result is a function of the text alone; of a
/// text that is all ASCII, the letters `A` to `Z` become `a` to `z` and nothing
/// else changes.
#[verifier::external_body]
pub(crate) fn to_lower(s: &str) -> (r: String)
    ensures
        r@ == lowercased(s@),
        vstd::utf8::is_ascii_chars(s@) ==> r@ == s@.map_values(|c: char| ascii_lower(c)),
{
    s.to_lowercase()
}

/// Calls `String::from_iter` on the characters of a slice: the text that
/// consists of those characters, in order.
#[verifier::external_body]
pub(crate) fn string_of(v: &[char]) -> (r: String)
    ensures
        r@ == v@,
{
    String::from_iter(v)
}

// ---------------------------------------------------------------------------
// Characters in and out
// ---------------------------------------------------------------------------

/// The characters of a text.
pub fn chars_of(s: &str) -> (v: Vec<char>)
    ensures
        v@ == s@,
{
    let mut v: Vec<char> = Vec::new();
    for c in it: s.chars()
        invariant
            v@ =~= it.seq().take(it.index()),
            it.seq() == s@,
    {
        v.push(c);
    }
    assert(s@.take(s@.len() as int) =~= s@);
    v
}

/// The text between two character positions.
pub fn substring(v: &Vec<char>, from: usize, to: usize) -> (r: String)
    requires
        from <= to <= v@.len(),
    ensures
        r@ == v@.subrange(from as int, to as int),
{
    let mut part: Vec<char> = Vec::new();
    let mut i: usize = from;
    while i < to
        invariant
            from <= i <= to <= v@.len(),
            part@ =~= v@.subrange(from as int, i as int),
        decreases to - i,
    {
        part.push(v[i]);
        i = i + 1;
    }
    string_of(part.as_slice())
}

/// Appends a text.
pub fn push_text(s: &mut String, t: &str)
    ensures
        final(s)@ == old(s)@ + t@,
{
    s.append(t);
}

/// Appends one character.
pub fn push_char(s: &mut String, c: char)
    ensures
        final(s)@ == old(s)@.push(c),
{
    let one: [char; 1] = [c];
    let t = string_of(&one);
    s.append(t.as_str());
    assert(s@ =~= old(s)@.push(c));
}

// ---------------------------------------------------------------------------
// Searching
// ---------------------------------------------------------------------------

/// Whether `p` stands in `s` at position `i`.
pub fn stands_at(s: &Vec<char>, p: &Vec<char>, i: usize) -> (r: bool)
    ensures
        r == matches_at(s@, p@, i as int),
{
    if i > s.len() || p.len() > s.len() - i {
        return false;
    }
    let mut k: usize = 0;
    while k < p.len()
        invariant
            i + p@.len() <= s@.len() <= usize::MAX,
            k <= p@.len(),
            forall|j: int| 0 <= j < k ==> s@[i + j] == p@[j],
        decreases p@.len() - k,
    {
        if s[i + k] != p[k] {
            assert(s@.subrange(i as int, i + p@.len())[k as int] != p@[k as int]);
            return false;
        }
        k = k + 1;
    }
    assert(s@.subrange(i as int, i + p@.len()) =~= p@);
    true
}

/// `find_from` is the first match, and absent exactly when there is none.
pub proof fn lemma_find_from(s: Seq<char>, p: Seq<char>, from: int)
    requires
        from >= 0,
    ensures
        find_from(s, p, from) matches Some(i) ==> from <= i && matches_at(s, p, i) && forall|j: int|
            from <= j < i ==> !matches_at(s, p, j),
        find_from(s, p, from) is None ==> forall|j: int| from <= j ==> !matches_at(s, p, j),
    decreases s.len() - from,
{
    if from + p.len() <= s.len() && !matches_at(s, p, from) {
        lemma_find_from(s, p, from + 1);
    }
}

/// The first position at or after `from` where `p` stands in `s`.
pub fn position_from(s: &Vec<char>, p: &Vec<char>, from: usize) -> (r: Option<usize>)
    ensures
        r matches Some(i) ==> find_from(s@, p@, from as int) == Some(i as int),
        r is None ==> find_from(s@, p@, from as int) is None,
{
    let mut i: usize = from;
    loop
        invariant
            from <= i,
            find_from(s@, p@, i as int) == find_from(s@, p@, from as int),
        decreases s@.len() - i,
    {
        if i > s.len() || p.len() > s.len() - i {
            return None;
        }
        if stands_at(s, p, i) {
            return Some(i);
        }
        if i == s.len() {
            return None;
        }
        i = i + 1;
    }
}

/// The character position of the first occurrence of `p` in `s`.
pub fn find(s: &str, p: &str) -> (r: Option<usize>)
    ensures
        r matches Some(i) ==> find_from(s@, p@, 0) == Some(i as int),
        r is None ==> find_from(s@, p@, 0) is None,
{
    position_from(&chars_of(s), &chars_of(p), 0)
}

/// Whether `p` occurs in `s`.
pub fn contains(s: &str, p: &str) -> (r: bool)
    ensures
        r == has(s@, p@),
{
    let r = find(s, p);
    proof {
        lemma_find_from(s@, p@, 0);
        if let Some(i) = r {
            assert(matches_at(s@, p@, i as int));
        }
    }
    r.is_some()
}

/// Whether `s` begins with `p`.
pub fn starts_with(s: &str, p: &str) -> (r: bool)
    ensures
        r == begins(s@, p@),
{
    stands_at(&chars_of(s), &chars_of(p), 0)
}

/// Whether `s` ends with `p`.
pub fn ends_with(s: &str, p: &str) -> (r: bool)
    ensures
        r == ends(s@, p@),
{
    let sv = chars_of(s);
    let pv = chars_of(p);
    if pv.len() > sv.len() {
        return false;
    }
    stands_at(&sv, &pv, sv.len() - pv.len())
}

/// Whether two texts are the same.
pub fn same(a: &str, b: &str) -> (r: bool)
    ensures
        r == (a@ == b@),
{
    let av = chars_of(a);
    let bv = chars_of(b);
    if av.len() != bv.len() {
        return false;
    }
    let r = stands_at(&av, &bv, 0);
    assert(a@.subrange(0, a@.len() as int) =~= a@);
    r
}

/// The text with every occurrence of `p` replaced by `r`.
pub open spec fn replaced(s: Seq<char>, p: Seq<char>, r: Seq<char>) -> Seq<char> {
    replaced_from(s, p, r, 0)
}

/// Replaces every occurrence of a non-empty `p`, found from the left, by `r`.
pub fn replace(s: &str, p: &str, r: &str) -> (out: String)
    requires
        p@.len() > 0,
    ensures
        out@ == replaced(s@, p@, r@),
{
    let sv = chars_of(s);
    let pv = chars_of(p);
    let rv = chars_of(r);
    let mut out: Vec<char> = Vec::new();
    let mut i: usize = 0;
    while i < sv.len()
        invariant
            sv@ == s@,
            pv@ == p@,
            rv@ == r@,
            p@.len() > 0,
            i <= sv@.len(),
            out@ + replaced_from(s@, p@, r@, i as int) =~= replaced(s@, p@, r@),
        decreases sv@.len() - i,
    {
        if stands_at(&sv, &pv, i) {
            let ghost before = out@;
            out.extend_from_slice(rv.as_slice());
            assert(out@ =~= before + r@);
            assert(out@ + replaced_from(s@, p@, r@, i + p@.len()) =~= before + (r@
                + replaced_from(s@, p@, r@, i + p@.len())));
            i = i + pv.len();
        } else {
            let ghost before = out@;
            out.push(sv[i]);
            assert(out@ + replaced_from(s@, p@, r@, i + 1) =~= before + (seq![s@[i as int]]
                + replaced_from(s@, p@, r@, i + 1)));
            i = i + 1;
        }
    }
    assert(out@ =~= out@ + replaced_from(s@, p@, r@, i as int));
    string_of(out.as_slice())
}

// ---------------------------------------------------------------------------
// Trimming
// ---------------------------------------------------------------------------

/// Whether a character is white space.
pub fn white(c: char) -> (r: bool)
    ensures
        r == is_white(c),
{
    let n: u32 = c as u32;
    (0x09 <= n && n <= 0x0d) || n == 0x20 || n == 0x85 || n == 0xa0 || n == 0x1680 || (0x2000 <= n
        && n <= 0x200a) || n == 0x2028 || n == 0x2029 || n == 0x202f || n == 0x205f || n == 0x3000
}

/// The number of white-space characters at the front.
pub fn white_prefix(v: &Vec<char>) -> (n: usize)
    ensures
        n <= v@.len(),
        v@.skip(n as int) == trimmed_start(v@),
        n == v@.len() - trimmed_start(v@).len(),
{
    let mut i: usize = 0;
    assert(v@.skip(0) =~= v@);
    while i < v.len() && white(v[i])
        invariant
            i <= v@.len(),
            trimmed_start(v@.skip(i as int)) == trimmed_start(v@),
        decreases v@.len() - i,
    {
        assert(v@.skip(i as int).drop_first() =~= v@.skip(i + 1));
        i = i + 1;
    }
    assert(i < v@.len() ==> v@.skip(i as int)[0] == v@[i as int]);
    i
}

/// The text without the white space at its front.
pub fn trim_start(s: &str) -> (r: String)
    ensures
        r@ == trimmed_start(s@),
{
    let v = chars_of(s);
    let n: usize = white_prefix(&v);
    assert(v@.subrange(n as int, v@.len() as int) =~= v@.skip(n as int));
    substring(&v, n, v.len())
}

/// The text without the white space at its back.
pub fn trim_end(s: &str) -> (r: String)
    ensures
        r@ == trimmed_end(s@),
{
    let v = chars_of(s);
    let mut n: usize = v.len();
    assert(v@.take(v@.len() as int) =~= v@);
    while n > 0 && white(v[n - 1])
        invariant
            n <= v@.len(),
            trimmed_end(v@.take(n as int)) == trimmed_end(v@),
        decreases n,
    {
        assert(v@.take(n as int).drop_last() =~= v@.take(n - 1));
        n = n - 1;
    }
    assert(n > 0 ==> v@.take(n as int).last() == v@[n - 1]);
    assert(v@.subrange(0, n as int) =~= v@.take(n as int));
    substring(&v, 0, n)
}

/// The text without the white space at either end.
pub fn trim(s: &str) -> (r: String)
    ensures
        r@ == trimmed(s@),
{
    let t = trim_start(s);
    trim_end(t.as_str())
}

/// The text without the run of `c` at its back.
pub fn trim_tail(s: &str, c: char) -> (r: String)
    ensures
        r@ == without_tail(s@, c),
{
    let v = chars_of(s);
    let mut n: usize = v.len();
    assert(v@.take(v@.len() as int) =~= v@);
    while n > 0 && v[n - 1] == c
        invariant
            n <= v@.len(),
            without_tail(v@.take(n as int), c) == without_tail(v@, c),
        decreases n,
    {
        assert(v@.take(n as int).drop_last() =~= v@.take(n - 1));
        n = n - 1;
    }
    assert(n > 0 ==> v@.take(n as int).last() == v@[n - 1]);
    assert(v@.subrange(0, n as int) =~= v@.take(n as int));
    substring(&v, 0, n)
}

// ---------------------------------------------------------------------------
// Bytes
// ---------------------------------------------------------------------------

/// The number of bytes that UTF-8 uses for a character.
pub fn char_width(c: char) -> (n: usize)
    ensures
        n == width(c),
{
    let u: u32 = c as u32;
    if u < 0x80 {
        1
    } else if u < 0x800 {
        2
    } else if u < 0x10000 {
        3
    } else {
        4
    }
}

/// A longer text takes at least as many bytes.
pub proof fn lemma_byte_len_mono(s: Seq<char>, n: int)
    requires
        0 <= n <= s.len(),
    ensures
        byte_len(s.take(n)) <= byte_len(s),
        n <= byte_len(s.take(n)),
        byte_len(s) <= 4 * s.len(),
    decreases s.len(),
{
    if n == s.len() {
        assert(s.take(n) =~= s);
        if s.len() > 0 {
            lemma_byte_len_mono(s.drop_last(), s.len() - 1);
            assert(s.drop_last().take(s.len() - 1) =~= s.drop_last());
        }
    } else {
        lemma_byte_len_mono(s.drop_last(), n);
        assert(s.drop_last().take(n) =~= s.take(n));
    }
}

/// The bytes of a joined text.
pub proof fn lemma_byte_len_add(a: Seq<char>, b: Seq<char>)
    ensures
        byte_len(a + b) == byte_len(a) + byte_len(b),
    decreases b.len(),
{
    if b.len() == 0 {
        assert(a + b =~= a);
    } else {
        lemma_byte_len_add(a, b.drop_last());
        assert((a + b).drop_last() =~= a + b.drop_last());
        assert((a + b).last() == b.last());
    }
}

/// `head_bytes` is a prefix within the limit, and no longer prefix is.
pub proof fn lemma_head_bytes(s: Seq<char>, limit: int)
    requires
        limit >= 0,
    ensures
        head_bytes(s, limit).len() <= s.len(),
        head_bytes(s, limit) == s.take(head_bytes(s, limit).len() as int),
        byte_len(head_bytes(s, limit)) <= limit,
        forall|n: int|
            head_bytes(s, limit).len() < n <= s.len() ==> byte_len(#[trigger] s.take(n)) > limit,
    decreases s.len(),
{
    if byte_len(s) <= limit || s.len() == 0 {
        assert(s.take(s.len() as int) =~= s);
    } else {
        let t = s.drop_last();
        lemma_head_bytes(t, limit);
        let k = head_bytes(t, limit).len() as int;
        assert(t.take(k) =~= s.take(k));
        assert forall|n: int| k < n <= s.len() implies byte_len(#[trigger] s.take(n)) > limit by {
            if n < s.len() {
                assert(t.take(n) =~= s.take(n));
            } else {
                assert(s.take(n) =~= s);
            }
        }
    }
}

/// `byte_len` counts the bytes of the UTF-8 encoding.
pub proof fn lemma_byte_len_encoding(s: Seq<char>)
    ensures
        byte_len(s) == vstd::utf8::encode_utf8(s).len(),
    decreases s.len(),
{
    if s.len() > 0 {
        lemma_byte_len_encoding(s.drop_first());
        lemma_byte_len_add(seq![s[0]], s.drop_first());
        assert(seq![s[0]] + s.drop_first() =~= s);
        assert(seq![s[0]].drop_last() =~= Seq::<char>::empty());
        assert(byte_len(seq![s[0]]) == width(s[0])) by {
            reveal_with_fuel(byte_len, 2);
        }
        vstd::utf8::char_is_scalar(s[0]);
    }
}

/// The number of bytes that UTF-8 uses for a text.
pub fn byte_count(s: &str) -> (n: usize)
    ensures
        n == byte_len(s@),
{
    proof {
        lemma_byte_len_encoding(s@);
    }
    s.as_bytes().len()
}

/// The longest prefix of a text that takes at most `limit` bytes.
pub fn first_bytes(v: &Vec<char>, limit: usize) -> (n: usize)
    ensures
        n <= v@.len(),
        v@.take(n as int) == head_bytes(v@, limit as int),
{
    let mut total: usize = 0;
    let mut i: usize = 0;
    proof {
        lemma_head_bytes(v@, limit as int);
    }
    let ghost k = head_bytes(v@, limit as int).len() as int;
    while i < v.len()
        invariant
            i <= v@.len(),
            total <= limit,
            total == byte_len(v@.take(i as int)),
            i <= k <= v@.len(),
            k == head_bytes(v@, limit as int).len(),
            head_bytes(v@, limit as int) == v@.take(k),
            byte_len(v@.take(k)) <= limit,
            forall|n: int| k < n <= v@.len() ==> byte_len(#[trigger] v@.take(n)) > limit,
        decreases v@.len() - i,
    {
        let w: usize = char_width(v[i]);
        proof {
            assert(v@.take(i + 1).drop_last() =~= v@.take(i as int));
            assert(v@.take(i + 1).last() == v@[i as int]);
        }
        if w > limit - total {
            proof {
                if i < k {
                    lemma_byte_len_mono(v@.take(k), i + 1);
                    assert(v@.take(k).take(i + 1) =~= v@.take(i + 1));
                }
            }
            return i;
        }
        total = total + w;
        i = i + 1;
    }
    i
}

// ---------------------------------------------------------------------------
// Numbers
// ---------------------------------------------------------------------------

/// The decimal digits of a number.
pub fn number_text(n: u64) -> (r: String)
    ensures
        r@ == decimal(n as nat),
    decreases n,
{
    let d: u8 = (n % 10) as u8;
    let c: char = (48 + d) as char;
    if n < 10 {
        let one: [char; 1] = [c];
        let r = string_of(&one);
        assert(r@ =~= decimal(n as nat));
        r
    } else {
        let mut r = number_text(n / 10);
        push_char(&mut r, c);
        r
    }
}

/// The lowest `places` decimal digits of a number.
fn padded_text(n: u64, places: u64) -> (r: String)
    ensures
        r@ == padded(n as nat, places as nat),
    decreases places,
{
    if places == 0 {
        String::new()
    } else {
        let mut r = padded_text(n / 10, places - 1);
        push_char(&mut r, (48 + (n % 10) as u8) as char);
        r
    }
}

/// The digits of a fraction, without the zeros at its back.
fn fraction_text(n: u64, places: u64) -> (r: String)
    ensures
        r@ == fraction_digits(n as nat, places as nat),
    decreases places,
{
    if places <= 1 || n % 10 != 0 {
        padded_text(n, places)
    } else {
        fraction_text(n / 10, places - 1)
    }
}

/// The decimal text of a number given in millionths.
pub fn micro_text(n: u64) -> (r: String)
    ensures
        r@ == micro_decimal(n as nat),
{
    let mut r = number_text(n / 1_000_000);
    push_char(&mut r, '.');
    let f = fraction_text(n % 1_000_000, 6);
    push_text(&mut r, f.as_str());
    assert(r@ =~= micro_decimal(n as nat));
    r
}

/// The unsigned 64-bit number that a text denotes: an optional plus sign and
/// then digits only, at least one.
pub fn parse_u64(s: &str) -> (r: Option<u64>)
    ensures
        r == parsed_u64(s@),
{
    let v = chars_of(s);
    let start: usize = if v.len() > 1 && v[0] == '+' { 1 } else { 0 };
    let ghost d = number_digits(s@);
    assert(d =~= v@.skip(start as int));
    if v.len() == start {
        return None;
    }
    let mut i: usize = start;
    let mut total: u64 = 0;
    while i < v.len()
        invariant
            start <= i <= v@.len(),
            start <= 1,
            d == v@.skip(start as int),
            d == number_digits(s@),
            total == digits_value(d.take(i - start)),
            forall|j: int| 0 <= j < i - start ==> is_digit(#[trigger] d[j]),
        decreases v@.len() - i,
    {
        let c: char = v[i];
        assert(d[i - start] == c);
        if c < '0' || c > '9' {
            assert(!is_digit(d[i - start]));
            return None;
        }
        let x: u64 = (c as u32 - '0' as u32) as u64;
        proof {
            assert(d.take(i - start + 1).drop_last() =~= d.take(i - start));
            assert(d.take(i - start + 1).last() == c);
            lemma_digits_mono(d, i - start + 1);
        }
        if total > (u64::MAX - x) / 10 {
            return None;
        }
        total = total * 10 + x;
        i = i + 1;
    }
    assert(d.take(d.len() as int) =~= d);
    Some(total)
}

/// More digits never denote a smaller number.
proof fn lemma_digits_mono(d: Seq<char>, n: int)
    requires
        0 <= n <= d.len(),
    ensures
        digits_value(d.take(n)) <= digits_value(d),
    decreases d.len(),
{
    if n == d.len() {
        assert(d.take(n) =~= d);
    } else {
        lemma_digits_mono(d.drop_last(), n);
        assert(d.drop_last().take(n) =~= d.take(n));
    }
}

// ---------------------------------------------------------------------------
// Splitting and joining
// ---------------------------------------------------------------------------

/// `split_at_char` never returns an empty list.
pub proof fn lemma_split_nonempty(s: Seq<char>, c: char)
    ensures
        split_at_char(s, c).len() > 0,
    decreases s.len(),
{
    if s.len() > 0 {
        lemma_split_nonempty(s.drop_last(), c);
    }
}

/// The pieces of a text between the occurrences of a character.
pub fn split(s: &str, c: char) -> (r: Vec<String>)
    ensures
        texts(r@) == split_at_char(s@, c),
        r@.len() > 0,
{
    let v = chars_of(s);
    let mut done: Vec<String> = Vec::new();
    let mut cur: Vec<char> = Vec::new();
    let mut i: usize = 0;
    while i < v.len()
        invariant
            v@ == s@,
            i <= v@.len(),
            texts(done@).push(cur@) =~= split_at_char(s@.take(i as int), c),
        decreases v@.len() - i,
    {
        let ghost before = split_at_char(s@.take(i as int), c);
        proof {
            assert(s@.take(i + 1).drop_last() =~= s@.take(i as int));
            assert(s@.take(i + 1).last() == s@[i as int]);
            assert(before.drop_last() =~= texts(done@));
        }
        if v[i] == c {
            let ghost old_done = done@;
            done.push(string_of(cur.as_slice()));
            assert(texts(done@) =~= texts(old_done).push(cur@));
            cur = Vec::new();
        } else {
            cur.push(v[i]);
        }
        i = i + 1;
    }
    let ghost old_done = done@;
    done.push(string_of(cur.as_slice()));
    assert(texts(done@) =~= texts(old_done).push(cur@));
    assert(s@.take(i as int) =~= s@);
    done
}

/// The lines of a text.
pub fn lines(s: &str) -> (r: Vec<String>)
    ensures
        texts(r@) == text_lines(s@),
{
    let pieces = split(s, '\n');
    let ghost all = split_at_char(s@, '\n');
    let mut out: Vec<String> = Vec::new();
    let mut i: usize = 0;
    assert(forall|j: int| 0 <= j < pieces@.len() ==> texts(pieces@)[j] == (#[trigger] pieces@[j])@);
    while i < pieces.len() - 1
        invariant
            texts(pieces@) == all,
            pieces@.len() > 0,
            i <= pieces@.len() - 1,
            texts(out@) =~= all.take(i as int).map_values(|l: Seq<char>| without_return(l)),
        decreases pieces@.len() - i,
    {
        let line = strip_return(pieces[i].as_str());
        let ghost before = out@;
        assert(texts(pieces@)[i as int] == pieces@[i as int]@);
        out.push(line);
        assert(texts(out@) =~= texts(before).push(without_return(all[i as int])));
        i = i + 1;
    }
    let last = pieces[pieces.len() - 1].clone();
    assert(texts(pieces@).last() == last@);
    assert(all.take(i as int) =~= all.drop_last());
    if !last.as_str().is_empty() {
        let ghost before = out@;
        out.push(last);
        assert(texts(out@) =~= texts(before).push(all.last()));
    }
    out
}

/// A line without the carriage return at its end.
pub fn strip_return(s: &str) -> (r: String)
    ensures
        r@ == without_return(s@),
{
    let v = chars_of(s);
    if v.len() > 0 && v[v.len() - 1] == '\r' {
        assert(v@.subrange(0, v@.len() - 1) =~= v@.drop_last());
        substring(&v, 0, v.len() - 1)
    } else {
        s.to_owned()
    }
}

/// The texts with `sep` between neighbours.
pub fn join(parts: &Vec<String>, sep: &str) -> (r: String)
    ensures
        r@ == joined(texts(parts@), sep@),
{
    let mut out = String::new();
    let mut i: usize = 0;
    while i < parts.len()
        invariant
            i <= parts@.len(),
            out@ =~= joined(texts(parts@).take(i as int), sep@),
        decreases parts@.len() - i,
    {
        proof {
            let t = texts(parts@).take(i + 1);
            assert(t.drop_last() =~= texts(parts@).take(i as int));
            assert(t.last() == parts@[i as int]@);
        }
        if i > 0 {
            push_text(&mut out, sep);
        }
        push_text(&mut out, parts[i].as_str());
        i = i + 1;
    }
    assert(texts(parts@).take(i as int) =~= texts(parts@));
    out
}

/// A copy of an optional string.
pub fn copy_opt(s: &Option<String>) -> (r: Option<String>)
    ensures
        opt(r) == opt(*s),
        r is Some == s is Some,
{
    match s {
        Some(t) => Some(t.clone()),
        None => None,
    }
}

/// The text with its ASCII letters in lower case.
pub open spec fn ascii_lowered(s: Seq<char>) -> Seq<char> {
    s.map_values(|c: char| ascii_lower(c))
}

/// The text with its ASCII letters in lower case.
pub fn ascii_lowercase(s: &str) -> (r: String)
    ensures
        r@ == ascii_lowered(s@),
{
    let v = chars_of(s);
    let mut out: Vec<char> = Vec::new();
    let mut i: usize = 0;
    while i < v.len()
        invariant
            v@ == s@,
            i <= v@.len(),
            out@ =~= ascii_lowered(s@).take(i as int),
        decreases v@.len() - i,
    {
        let c: char = v[i];
        if c >= 'A' && c <= 'Z' {
            out.push((c as u8 + 32) as char);
        } else {
            out.push(c);
        }
        assert(ascii_lowered(s@)[i as int] == ascii_lower(c));
        i = i + 1;
    }
    assert(ascii_lowered(s@).take(i as int) =~= ascii_lowered(s@));
    string_of(out.as_slice())
}

/// The text after a prefix, where it has the prefix.
pub fn strip_prefix(s: &str, p: &str) -> (r: Option<String>)
    ensures
        opt(r) == (if begins(s@, p@) {
            Some(s@.skip(p@.len() as int))
        } else {
            None
        }),
{
    let sv = chars_of(s);
    let pv = chars_of(p);
    if stands_at(&sv, &pv, 0) {
        assert(sv@.subrange(pv@.len() as int, sv@.len() as int) =~= s@.skip(p@.len() as int));
        Some(substring(&sv, pv.len(), sv.len()))
    } else {
        None
    }
}

/// The text before a suffix, where it has the suffix.
pub fn strip_suffix(s: &str, p: &str) -> (r: Option<String>)
    ensures
        opt(r) == (if ends(s@, p@) {
            Some(s@.take(s@.len() - p@.len()))
        } else {
            None
        }),
{
    let sv = chars_of(s);
    let pv = chars_of(p);
    if pv.len() <= sv.len() && stands_at(&sv, &pv, sv.len() - pv.len()) {
        assert(sv@.subrange(0, sv@.len() - pv@.len()) =~= s@.take(s@.len() - p@.len()));
        Some(substring(&sv, 0, sv.len() - pv.len()))
    } else {
        None
    }
}

// ---------------------------------------------------------------------------
// Order
// ---------------------------------------------------------------------------

/// The order of texts: by the first character in which they differ, and a text comes
/// after its own beginnings.
pub open spec fn comes_first(a: Seq<char>, b: Seq<char>) -> bool
    decreases a.len(),
{
    if a.len() == 0 {
        true
    } else if b.len() == 0 {
        false
    } else if a[0] != b[0] {
        a[0] < b[0]
    } else {
        comes_first(a.drop_first(), b.drop_first())
    }
}

/// A list in order with one more text in its place.
pub open spec fn in_place(v: Seq<Seq<char>>, t: Seq<char>) -> Seq<Seq<char>>
    decreases v.len(),
{
    if v.len() == 0 || comes_first(v.last(), t) {
        v.push(t)
    } else {
        in_place(v.drop_last(), t).push(v.last())
    }
}

/// The texts of a list in order.
pub open spec fn ordered(v: Seq<Seq<char>>) -> Seq<Seq<char>>
    decreases v.len(),
{
    if v.len() == 0 {
        v
    } else {
        in_place(ordered(v.drop_last()), v.last())
    }
}

/// Of two texts one comes first, and both do only where they are the same.
pub proof fn lemma_order_is_total(a: Seq<char>, b: Seq<char>)
    ensures
        comes_first(a, b) || comes_first(b, a),
        comes_first(a, b) && comes_first(b, a) ==> a == b,
    decreases a.len(),
{
    if a.len() == 0 {
        assert(b.len() == 0 ==> a =~= b);
    } else if b.len() > 0 && a[0] == b[0] {
        lemma_order_is_total(a.drop_first(), b.drop_first());
        if a.drop_first() == b.drop_first() {
            assert(a =~= seq![a[0]] + a.drop_first());
            assert(b =~= seq![b[0]] + b.drop_first());
        }
    }
}

/// What comes before a text that comes before another comes before that one.
pub proof fn lemma_order_is_transitive(a: Seq<char>, b: Seq<char>, c: Seq<char>)
    requires
        comes_first(a, b),
        comes_first(b, c),
    ensures
        comes_first(a, c),
    decreases a.len(),
{
    if a.len() > 0 && b.len() > 0 && c.len() > 0 && a[0] == b[0] && b[0] == c[0] {
        lemma_order_is_transitive(a.drop_first(), b.drop_first(), c.drop_first());
    }
}

/// Ordering a list puts every text before the ones that come after it, and neither
/// drops nor adds a text.
pub proof fn law_ordered(v: Seq<Seq<char>>)
    ensures
        ordered(v).to_multiset() == v.to_multiset(),
        forall|i: int, j: int|
            0 <= i < j < ordered(v).len() ==> comes_first(
                #[trigger] ordered(v)[i],
                #[trigger] ordered(v)[j],
            ),
    decreases v.len(),
{
    if v.len() > 0 {
        law_ordered(v.drop_last());
        lemma_in_place(ordered(v.drop_last()), v.last());
        v.drop_last().to_multiset_ensures();
        assert(v.drop_last().push(v.last()) =~= v);
    }
}

proof fn lemma_in_place(v: Seq<Seq<char>>, t: Seq<char>)
    requires
        forall|i: int, j: int|
            0 <= i < j < v.len() ==> comes_first(#[trigger] v[i], #[trigger] v[j]),
    ensures
        in_place(v, t).to_multiset() == v.to_multiset().insert(t),
        in_place(v, t).len() == v.len() + 1,
        forall|i: int|
            0 <= i < in_place(v, t).len() ==> #[trigger] in_place(v, t)[i] == t || v.contains(
                in_place(v, t)[i],
            ),
        forall|i: int, j: int|
            0 <= i < j < in_place(v, t).len() ==> comes_first(
                #[trigger] in_place(v, t)[i],
                #[trigger] in_place(v, t)[j],
            ),
    decreases v.len(),
{
    v.to_multiset_ensures();
    let out = in_place(v, t);
    if v.len() == 0 || comes_first(v.last(), t) {
        assert forall|i: int, j: int| 0 <= i < j < out.len() implies comes_first(
            #[trigger] out[i],
            #[trigger] out[j],
        ) by {
            if j == v.len() && i < v.len() - 1 {
                assert(comes_first(v[i], v[v.len() - 1]));
                lemma_order_is_transitive(v[i], v.last(), t);
            }
        }
        assert forall|i: int| 0 <= i < out.len() implies #[trigger] out[i] == t || v.contains(
            out[i],
        ) by {
            if i < v.len() {
                assert(v[i] == out[i]);
            }
        }
    } else {
        let p = v.drop_last();
        let q = in_place(p, t);
        assert forall|i: int, j: int| 0 <= i < j < p.len() implies comes_first(
            #[trigger] p[i],
            #[trigger] p[j],
        ) by {
            assert(comes_first(v[i], v[j]));
        }
        lemma_in_place(p, t);
        lemma_order_is_total(v.last(), t);
        q.to_multiset_ensures();
        p.to_multiset_ensures();
        assert(p.push(v.last()) =~= v);
        assert(out.to_multiset() =~= v.to_multiset().insert(t));
        assert forall|i: int, j: int| 0 <= i < j < out.len() implies comes_first(
            #[trigger] out[i],
            #[trigger] out[j],
        ) by {
            if j == q.len() {
                if q[i] != t {
                    let k = choose|k: int| 0 <= k < p.len() && p[k] == q[i];
                    assert(comes_first(v[k], v[v.len() - 1]));
                }
            } else {
                assert(comes_first(q[i], q[j]));
            }
        }
        assert forall|i: int| 0 <= i < out.len() implies #[trigger] out[i] == t || v.contains(
            out[i],
        ) by {
            if i < q.len() {
                if q[i] != t {
                    let k = choose|k: int| 0 <= k < p.len() && p[k] == q[i];
                    assert(v[k] == out[i]);
                }
            } else {
                assert(v[v.len() - 1] == out[i]);
            }
        }
    }
}

/// Whether a text comes before another or is the same.
pub fn is_first(a: &str, b: &str) -> (r: bool)
    ensures
        r == comes_first(a@, b@),
{
    let av = chars_of(a);
    let bv = chars_of(b);
    let mut i: usize = 0;
    assert(av@.skip(0) =~= av@);
    assert(bv@.skip(0) =~= bv@);
    while i < av.len() && i < bv.len() && av[i] == bv[i]
        invariant
            i <= av@.len(),
            i <= bv@.len(),
            comes_first(av@.skip(i as int), bv@.skip(i as int)) == comes_first(av@, bv@),
        decreases av@.len() - i,
    {
        assert(av@.skip(i as int).drop_first() =~= av@.skip(i + 1));
        assert(bv@.skip(i as int).drop_first() =~= bv@.skip(i + 1));
        i = i + 1;
    }
    if i >= av.len() {
        true
    } else if i >= bv.len() {
        false
    } else {
        assert(av@.skip(i as int)[0] == av@[i as int]);
        assert(bv@.skip(i as int)[0] == bv@[i as int]);
        av[i] < bv[i]
    }
}

/// The texts of a list in order.
pub fn order(v: &Vec<String>) -> (r: Vec<String>)
    ensures
        texts(r@) == ordered(texts(v@)),
{
    let ghost ts = texts(v@);
    let mut out: Vec<String> = Vec::new();
    let mut i: usize = 0;
    assert(texts(out@) =~= ordered(ts.take(0)));
    while i < v.len()
        invariant
            i <= v@.len(),
            ts == texts(v@),
            texts(out@) == ordered(ts.take(i as int)),
        decreases v@.len() - i,
    {
        assert(ts.take(i + 1).drop_last() =~= ts.take(i as int));
        assert(ts.take(i + 1).last() == v@[i as int]@);
        put_in_place(&mut out, v[i].as_str());
        i = i + 1;
    }
    assert(ts.take(i as int) =~= ts);
    out
}

fn put_in_place(v: &mut Vec<String>, t: &str)
    ensures
        texts(final(v)@) == in_place(texts(old(v)@), t@),
{
    let ghost ts = texts(v@);
    let mut k: usize = v.len();
    assert(ts.take(k as int) =~= ts);
    assert(in_place(ts, t@) =~= in_place(ts.take(k as int), t@) + ts.skip(k as int));
    while k > 0 && !is_first(v[k - 1].as_str(), t)
        invariant
            k <= v@.len(),
            ts == texts(v@),
            in_place(ts, t@) == in_place(ts.take(k as int), t@) + ts.skip(k as int),
        decreases k,
    {
        let ghost p = ts.take(k as int);
        assert(p.last() == v@[k - 1]@);
        assert(p.drop_last() =~= ts.take(k - 1));
        assert(in_place(p, t@) + ts.skip(k as int) =~= in_place(ts.take(k - 1), t@) + ts.skip(
            k - 1,
        ));
        k = k - 1;
    }
    assert(k > 0 ==> ts.take(k as int).last() == v@[k - 1]@);
    let ghost before = v@;
    v.insert(k, t.to_owned());
    assert(texts(v@) =~= ts.take(k as int).push(t@) + ts.skip(k as int));
}

/// The list with a text added unless it is in it already.
pub open spec fn with_text(v: Seq<Seq<char>>, t: Seq<char>) -> Seq<Seq<char>> {
    if v.contains(t) {
        v
    } else {
        v.push(t)
    }
}

/// Whether a list holds a text.
pub fn holds(v: &Vec<String>, t: &str) -> (r: bool)
    ensures
        r == texts(v@).contains(t@),
{
    let mut i: usize = 0;
    while i < v.len()
        invariant
            i <= v@.len(),
            forall|j: int| 0 <= j < i ==> #[trigger] texts(v@)[j] != t@,
        decreases v@.len() - i,
    {
        assert(texts(v@)[i as int] == v@[i as int]@);
        if same(v[i].as_str(), t) {
            return true;
        }
        i = i + 1;
    }
    false
}

/// Adds a text to a list unless it is in it already.
pub fn add_text(v: &mut Vec<String>, t: &str)
    ensures
        texts(final(v)@) == with_text(texts(old(v)@), t@),
{
    if !holds(v, t) {
        let ghost before = v@;
        v.push(t.to_owned());
        assert(texts(v@) =~= texts(before).push(t@));
    }
}

} // verus!
