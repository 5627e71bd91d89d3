//! What the repair of arguments is for: JSON stays as it is, what was cut off is closed,
//! and what cannot be saved is an empty object.

use crate::json;
use crate::providers::tool_args;
use crate::providers::types::MAX_TOOL_ARGUMENT_SIZE;
use crate::text;
use vstd::prelude::*;

verus! {

/// Arguments that are JSON are made with as they are; others are only ever added to, so
/// that they become JSON, and where that does not help the call has no arguments.
pub proof fn law_arguments_are_kept_or_closed(args: Seq<char>)
    ensures
        ({
            let r = tool_args::validated(args);
            &&& args.len() == 0 ==> r == "{}"@
            &&& args.len() > 0 && json::parsed(args) is Some ==> r == args
            &&& r == "{}"@ || (json::parsed(r) is Some && r.len() >= args.len() && r.take(
                args.len() as int,
            ) == args)
            &&& args.len() > 0 && json::parsed(args) is None && json::parsed(
                tool_args::closed_up(args),
            ) is Some ==> r == tool_args::closed_up(args)
        }),
{
    let c = tool_args::closed_up(args);
    assert(c.take(args.len() as int) =~= args);
    assert(args.take(args.len() as int) =~= args);
}

/// Outside of strings an opening brace or bracket is one more that is open, and a closing
/// one is one less; within strings nothing counts.
pub proof fn law_openings_are_counted(s: Seq<char>)
    ensures
        ({
            let a = tool_args::scan(s);
            let open = tool_args::scan(s.push('{'));
            let close = tool_args::scan(s.push('}'));
            let list = tool_args::scan(s.push('['));
            let end = tool_args::scan(s.push(']'));
            if a.in_string || a.escaped {
                &&& open.braces == a.braces && open.brackets == a.brackets
                &&& close.braces == a.braces && close.brackets == a.brackets
                &&& list.braces == a.braces && list.brackets == a.brackets
                &&& end.braces == a.braces && end.brackets == a.brackets
            } else {
                &&& open.braces == a.braces + 1 && open.brackets == a.brackets
                &&& close.braces == a.braces - 1 && close.brackets == a.brackets
                &&& list.braces == a.braces && list.brackets == a.brackets + 1
                &&& end.braces == a.braces && end.brackets == a.brackets - 1
            }
        }),
{
    assert(s.push('{').drop_last() =~= s);
    assert(s.push('}').drop_last() =~= s);
    assert(s.push('[').drop_last() =~= s);
    assert(s.push(']').drop_last() =~= s);
}

/// A whole string in quotes counts for nothing, whatever stands in it.
pub proof fn law_strings_count_for_nothing(s: Seq<char>, inner: Seq<char>)
    requires
        !tool_args::scan(s).in_string,
        !tool_args::scan(s).escaped,
        !inner.contains('"'),
        !inner.contains('\\'),
    ensures
        tool_args::scan(s.push('"') + inner + seq!['"']) == tool_args::scan(s),
{
    let open = s.push('"');
    assert(open.drop_last() =~= s);
    lemma_inside(open, inner);
    let all = open + inner + seq!['"'];
    assert(all.drop_last() =~= open + inner);
}

proof fn lemma_inside(open: Seq<char>, inner: Seq<char>)
    requires
        tool_args::scan(open).in_string,
        !tool_args::scan(open).escaped,
        !inner.contains('"'),
        !inner.contains('\\'),
    ensures
        tool_args::scan(open + inner) == tool_args::scan(open),
    decreases inner.len(),
{
    if inner.len() == 0 {
        assert(open + inner =~= open);
    } else {
        let p = inner.drop_last();
        assert(!p.contains('"')) by {
            if p.contains('"') {
                let k = choose|k: int| 0 <= k < p.len() && p[k] == '"';
                assert(inner[k] == '"');
            }
        }
        assert(!p.contains('\\')) by {
            if p.contains('\\') {
                let k = choose|k: int| 0 <= k < p.len() && p[k] == '\\';
                assert(inner[k] == '\\');
            }
        }
        lemma_inside(open, p);
        assert((open + inner).drop_last() =~= open + p);
        assert(inner[inner.len() - 1] == inner.last());
        assert(inner.contains(inner.last()));
    }
}

/// What is closed up has nothing left open: the arguments stand at its front, then the
/// brackets are closed, then the braces, as many as were open and no more.
pub proof fn law_closing_leaves_nothing_open(s: Seq<char>)
    requires
        !tool_args::scan(s).in_string,
        !tool_args::scan(s).escaped,
    ensures
        ({
            let a = tool_args::scan(s);
            let c = tool_args::closed_up(s);
            let b = tool_args::scan(c);
            let lists = if a.brackets > 0 {
                a.brackets
            } else {
                0
            };
            let objects = if a.braces > 0 {
                a.braces
            } else {
                0
            };
            &&& c.len() == s.len() + lists + objects
            &&& c.take(s.len() as int) == s
            &&& forall|i: int| s.len() <= i < s.len() + lists ==> #[trigger] c[i] == ']'
            &&& forall|i: int| s.len() + lists <= i < c.len() ==> #[trigger] c[i] == '}'
            &&& b.brackets <= 0
            &&& b.braces <= 0
            &&& a.brackets >= 0 ==> b.brackets == 0
            &&& a.braces >= 0 ==> b.braces == 0
            &&& !b.in_string
            &&& !b.escaped
        }),
{
    let a = tool_args::scan(s);
    let c = tool_args::closed_up(s);
    let lists = if a.brackets > 0 {
        a.brackets
    } else {
        0
    };
    let objects = if a.braces > 0 {
        a.braces
    } else {
        0
    };
    assert(c.take(s.len() as int) =~= s);
    lemma_closers(s, ']', lists);
    let mid = s + tool_args::times(']', lists);
    lemma_closers(mid, '}', objects);
    assert(tool_args::times(']', a.brackets) =~= tool_args::times(']', lists));
    assert(tool_args::times('}', a.braces) =~= tool_args::times('}', objects));
}

proof fn lemma_closers(s: Seq<char>, c: char, n: int)
    requires
        n >= 0,
        c == ']' || c == '}',
        !tool_args::scan(s).in_string,
        !tool_args::scan(s).escaped,
    ensures
        ({
            let a = tool_args::scan(s);
            let b = tool_args::scan(s + tool_args::times(c, n));
            &&& !b.in_string && !b.escaped
            &&& c == ']' ==> b.brackets == a.brackets - n && b.braces == a.braces
            &&& c == '}' ==> b.braces == a.braces - n && b.brackets == a.brackets
        }),
    decreases n,
{
    let all = s + tool_args::times(c, n);
    if n == 0 {
        assert(all =~= s);
    } else {
        lemma_closers(s, c, n - 1);
        assert(all.drop_last() =~= s + tool_args::times(c, n - 1));
        assert(all.last() == c);
    }
}

/// Fragments that fit together make up the arguments, however they were cut; what came
/// before a fragment stays at the front.
pub proof fn law_fragments_make_up_the_arguments(a: Seq<char>, b: Seq<char>, c: Seq<char>)
    ensures
        ({
            let r = tool_args::appended(a, b);
            r.len() >= a.len() && r.take(a.len() as int) == a
        }),
        text::byte_len(a) + text::byte_len(b) + text::byte_len(c) <= MAX_TOOL_ARGUMENT_SIZE
            ==> tool_args::appended(tool_args::appended(a, b), c) == a + b + c
            && tool_args::appended(a, b + c) == a + b + c,
{
    let r = tool_args::appended(a, b);
    assert(r.take(a.len() as int) =~= a);
    if text::byte_len(a) + text::byte_len(b) + text::byte_len(c) <= MAX_TOOL_ARGUMENT_SIZE {
        tool_args::law_fitting_fragment_is_whole(a, b);
        text::lemma_byte_len_add(a, b);
        text::lemma_byte_len_add(b, c);
        tool_args::law_fitting_fragment_is_whole(a + b, c);
        tool_args::law_fitting_fragment_is_whole(a, b + c);
        assert(a + (b + c) =~= a + b + c);
    }
}

} // verus!
