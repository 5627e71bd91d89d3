//! Tool call arguments: assembly within a size limit, validation and repair.

use crate::json;
use crate::providers::types::MAX_TOOL_ARGUMENT_SIZE;
use crate::text;
use vstd::prelude::*;

verus! {

/// What a scan over JSON text has seen: how many braces and brackets are open
/// outside of strings, whether it stands inside a string, and whether the next
/// character is escaped.
pub struct Scan {
    pub braces: int,
    pub brackets: int,
    pub in_string: bool,
    pub escaped: bool,
}

impl Scan {
    /// The scan after one more character.
    pub open spec fn step(self, c: char) -> Scan {
        if self.escaped {
            Scan { escaped: false, ..self }
        } else if c == '\\' {
            Scan { escaped: true, ..self }
        } else if c == '"' {
            Scan { in_string: !self.in_string, ..self }
        } else if self.in_string {
            self
        } else if c == '{' {
            Scan { braces: self.braces + 1, ..self }
        } else if c == '}' {
            Scan { braces: self.braces - 1, ..self }
        } else if c == '[' {
            Scan { brackets: self.brackets + 1, ..self }
        } else if c == ']' {
            Scan { brackets: self.brackets - 1, ..self }
        } else {
            self
        }
    }
}

/// The scan over a whole text.
pub open spec fn scan(s: Seq<char>) -> Scan
    decreases s.len(),
{
    if s.len() == 0 {
        Scan { braces: 0, brackets: 0, in_string: false, escaped: false }
    } else {
        scan(s.drop_last()).step(s.last())
    }
}

/// `n` times the same character, none where `n` is negative.
pub open spec fn times(c: char, n: int) -> Seq<char> {
    Seq::new(
        if n > 0 {
            n as nat
        } else {
            0
        },
        |i: int| c,
    )
}

/// The text with the brackets and then the braces closed that are left open.
pub open spec fn closed_up(s: Seq<char>) -> Seq<char> {
    s + times(']', scan(s).brackets) + times('}', scan(s).braces)
}

/// The arguments that a call is made with: as they are where they are JSON, closed
/// up where that makes them JSON, and empty else.
pub open spec fn chosen_args(args: Seq<char>, is_json: bool, closed_is_json: bool) -> Seq<char> {
    if args.len() == 0 {
        "{}"@
    } else if is_json {
        args
    } else if closed_is_json {
        closed_up(args)
    } else {
        "{}"@
    }
}

/// The arguments that a call is made with, given what `serde_json` accepts.
pub open spec fn validated(args: Seq<char>) -> Seq<char> {
    chosen_args(args, json::parsed(args) is Some, json::parsed(closed_up(args)) is Some)
}

/// The arguments with open brackets and braces closed.
pub fn close_up(args: &str) -> (r: String)
    ensures
        r@ == closed_up(args@),
{
    let v = text::chars_of(args);
    let mut braces: i128 = 0;
    let mut brackets: i128 = 0;
    let mut in_string = false;
    let mut escaped = false;
    let mut i: usize = 0;
    assert(v@.take(0) =~= Seq::empty());
    while i < v.len()
        invariant
            v@ == args@,
            i <= v@.len(),
            braces == scan(v@.take(i as int)).braces,
            brackets == scan(v@.take(i as int)).brackets,
            in_string == scan(v@.take(i as int)).in_string,
            escaped == scan(v@.take(i as int)).escaped,
            -(i as int) <= braces <= i,
            -(i as int) <= brackets <= i,
        decreases v@.len() - i,
    {
        let c: char = v[i];
        proof {
            assert(v@.take(i + 1).drop_last() =~= v@.take(i as int));
            assert(v@.take(i + 1).last() == c);
        }
        if escaped {
            escaped = false;
        } else if c == '\\' {
            escaped = true;
        } else if c == '"' {
            in_string = !in_string;
        } else if !in_string {
            if c == '{' {
                braces = braces + 1;
            } else if c == '}' {
                braces = braces - 1;
            } else if c == '[' {
                brackets = brackets + 1;
            } else if c == ']' {
                brackets = brackets - 1;
            }
        }
        i = i + 1;
    }
    assert(v@.take(i as int) =~= v@);
    let mut r = args.to_owned();
    push_times(&mut r, ']', brackets);
    push_times(&mut r, '}', braces);
    r
}

/// Appends a character `n` times.
fn push_times(s: &mut String, c: char, n: i128)
    ensures
        final(s)@ == old(s)@ + times(c, n as int),
{
    let mut k: i128 = 0;
    assert(s@ =~= old(s)@ + times(c, 0));
    while k < n
        invariant
            0 <= k,
            k <= n || k == 0,
            s@ =~= old(s)@ + times(c, k as int),
        decreases n - k,
    {
        text::push_char(s, c);
        k = k + 1;
        assert(times(c, k as int) =~= times(c, k - 1).push(c));
    }
    assert(n <= 0 ==> times(c, n as int) =~= times(c, 0));
}

/// The arguments that a call is made with, given whether they and their closed-up
/// form are JSON.
pub fn choose_tool_call_args(args: &str, is_json: bool, closed_is_json: bool) -> (r: String)
    ensures
        r@ == chosen_args(args@, is_json, closed_is_json),
{
    if args.is_empty() {
        "{}".to_owned()
    } else if is_json {
        args.to_owned()
    } else if closed_is_json {
        close_up(args)
    } else {
        "{}".to_owned()
    }
}

/// Validate and optionally repair tool call arguments JSON.
/// Returns valid JSON string. Falls back to "{}" if repair fails.
pub fn validate_tool_call_args(args: &str, _provider_name: &str, _context: &str) -> (r: String)
    ensures
        r@ == validated(args@),
        json::parsed(r@) is Some || r@ == "{}"@,
{
    if args.is_empty() {
        return "{}".to_owned();
    }
    let is_json = json::parse(args).is_some();
    if is_json {
        return args.to_owned();
    }
    let closed = close_up(args);
    let closed_is_json = json::parse(closed.as_str()).is_some();
    choose_tool_call_args(args, is_json, closed_is_json)
}

/// Validation is settled after one pass: arguments that came out of it come out
/// of it unchanged.
pub proof fn law_validation_is_idempotent(args: Seq<char>)
    ensures
        validated(validated(args)) == validated(args),
{
    reveal_strlit("{}");
    let e = "{}"@;
    assert(e =~= seq!['{', '}']);
    assert(e.drop_last() =~= seq!['{']);
    assert(e.drop_last().drop_last() =~= Seq::<char>::empty());
    reveal_with_fuel(scan, 3);
    assert(scan(e).braces == 0 && scan(e).brackets == 0);
    assert(closed_up(e) =~= e);
    assert(validated(e) == e);
}

// ---------------------------------------------------------------------------
// Assembly
// ---------------------------------------------------------------------------

/// The arguments after a fragment was added: cut to the size limit, at a character
/// boundary.
pub open spec fn appended(args: Seq<char>, fragment: Seq<char>) -> Seq<char> {
    let room = MAX_TOOL_ARGUMENT_SIZE - text::byte_len(args);
    if room <= 0 {
        args
    } else {
        args + text::head_bytes(fragment, room)
    }
}

/// Arguments within the size limit stay within it.
pub proof fn law_arguments_stay_within_limit(args: Seq<char>, fragment: Seq<char>)
    requires
        text::byte_len(args) <= MAX_TOOL_ARGUMENT_SIZE,
    ensures
        text::byte_len(appended(args, fragment)) <= MAX_TOOL_ARGUMENT_SIZE,
{
    let room = MAX_TOOL_ARGUMENT_SIZE - text::byte_len(args);
    if room > 0 {
        text::lemma_head_bytes(fragment, room);
        text::lemma_byte_len_add(args, text::head_bytes(fragment, room));
    }
}

/// A fragment that fits is added whole.
pub proof fn law_fitting_fragment_is_whole(args: Seq<char>, fragment: Seq<char>)
    requires
        text::byte_len(args) + text::byte_len(fragment) <= MAX_TOOL_ARGUMENT_SIZE,
    ensures
        appended(args, fragment) == args + fragment,
{
    if text::byte_len(args) >= MAX_TOOL_ARGUMENT_SIZE {
        text::lemma_byte_len_mono(fragment, fragment.len() as int);
        assert(fragment.take(fragment.len() as int) =~= fragment);
        assert(args + fragment =~= args);
    }
}

/// Adds a fragment to the arguments of a call.
pub fn append_args(args: &mut String, fragment: &str)
    ensures
        final(args)@ == appended(old(args)@, fragment@),
{
    let used: usize = text::byte_count(args.as_str());
    if used < MAX_TOOL_ARGUMENT_SIZE {
        let v = text::chars_of(fragment);
        let n: usize = text::first_bytes(&v, MAX_TOOL_ARGUMENT_SIZE - used);
        let part = text::substring(&v, 0, n);
        assert(part@ =~= v@.take(n as int));
        text::push_text(args, part.as_str());
    }
}

} // verus!
