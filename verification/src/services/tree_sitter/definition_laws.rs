//! What definitions and skeletons are for: every line that defines something is listed, and
//! nothing else is; each shows what it spans and which functions of the file it calls.

use crate::services::tree_sitter::code::Reading;
use crate::services::tree_sitter::definitions;
use crate::services::tree_sitter::definitions::Definition;
use crate::text;
use vstd::prelude::*;

verus! {

/// A step that captures the name of a definition.
pub open spec fn names_one(r: Reading, i: int) -> bool {
    text::has(r.name(i), "name.definition"@)
}

/// Steps in the order of their rows.
pub open spec fn in_rows(r: Reading, v: Seq<int>) -> bool {
    forall|a: int, b: int| 0 <= a < b < v.len() ==> r.row(#[trigger] v[a]) <= r.row(#[trigger] v[b])
}

proof fn lemma_inserted(r: Reading, v: Seq<int>, i: int)
    requires
        in_rows(r, v),
    ensures
        in_rows(r, definitions::by_row_with(r, v, i)),
        forall|k: int| #[trigger]
            definitions::by_row_with(r, v, i).contains(k) <==> v.contains(k) || k == i,
    decreases v.len(),
{
    let out = definitions::by_row_with(r, v, i);
    if v.len() == 0 || r.row(v.last()) <= r.row(i) {
        assert forall|a: int, b: int| 0 <= a < b < out.len() implies r.row(#[trigger] out[a])
            <= r.row(#[trigger] out[b]) by {
            if b < v.len() {
                assert(r.row(v[a]) <= r.row(v[b]));
            } else if a < v.len() - 1 {
                assert(r.row(v[a]) <= r.row(v[v.len() - 1]));
            }
        }
        assert forall|k: int| #[trigger] out.contains(k) <==> v.contains(k) || k == i by {
            if v.contains(k) {
                let a = choose|a: int| 0 <= a < v.len() && v[a] == k;
                assert(out[a] == k);
            }
            if k == i {
                assert(out[v.len() as int] == k);
            }
            if out.contains(k) {
                let a = choose|a: int| 0 <= a < out.len() && out[a] == k;
                if a < v.len() {
                    assert(v[a] == k);
                }
            }
        }
    } else {
        let p = v.drop_last();
        assert forall|a: int, b: int| 0 <= a < b < p.len() implies r.row(#[trigger] p[a]) <= r.row(
            #[trigger] p[b],
        ) by {
            assert(r.row(v[a]) <= r.row(v[b]));
        }
        lemma_inserted(r, p, i);
        let q = definitions::by_row_with(r, p, i);
        assert forall|k: int| #[trigger] out.contains(k) <==> v.contains(k) || k == i by {
            if out.contains(k) {
                let a = choose|a: int| 0 <= a < out.len() && out[a] == k;
                if a < q.len() {
                    assert(q[a] == k);
                    assert(q.contains(k));
                    if k != i {
                        let b = choose|b: int| 0 <= b < p.len() && p[b] == k;
                        assert(v[b] == k);
                    }
                } else {
                    assert(v[v.len() - 1] == k);
                }
            }
            if v.contains(k) {
                let b = choose|b: int| 0 <= b < v.len() && v[b] == k;
                if b < p.len() {
                    assert(p[b] == k);
                    assert(q.contains(k));
                    let a = choose|a: int| 0 <= a < q.len() && q[a] == k;
                    assert(out[a] == k);
                } else {
                    assert(out[q.len() as int] == k);
                }
            }
            if k == i {
                assert(q.contains(k));
                let a = choose|a: int| 0 <= a < q.len() && q[a] == k;
                assert(out[a] == k);
            }
        }
        assert forall|a: int, b: int| 0 <= a < b < out.len() implies r.row(#[trigger] out[a])
            <= r.row(#[trigger] out[b]) by {
            if b < q.len() {
                assert(r.row(q[a]) <= r.row(q[b]));
            } else {
                assert(q[a] == out[a]);
                assert(q.contains(q[a]));
                if q[a] != i {
                    let c = choose|c: int| 0 <= c < p.len() && p[c] == q[a];
                    assert(v[c] == q[a]);
                    assert(r.row(v[c]) <= r.row(v[v.len() - 1]));
                }
            }
        }
    }
}

proof fn lemma_by_row(r: Reading, n: int)
    requires
        0 <= n,
    ensures
        in_rows(r, definitions::by_row(r, n)),
        forall|k: int| #[trigger]
            definitions::by_row(r, n).contains(k) <==> 0 <= k < n && names_one(r, k),
    decreases n,
{
    if n > 0 {
        lemma_by_row(r, n - 1);
        if names_one(r, n - 1) {
            lemma_inserted(r, definitions::by_row(r, n - 1), n - 1);
        }
    }
}

/// One of the definitions stands on a row.
pub open spec fn lists(v: Seq<Definition>, row: int) -> bool {
    exists|j: int| 0 <= j < v.len() && (#[trigger] v[j]).line == row
}

/// The definition is that of one of the steps.
pub open spec fn is_of(d: Definition, r: Reading, v: Seq<int>, graph: bool) -> bool {
    exists|k: int| 0 <= k < v.len() && d == definitions::definition(r, #[trigger] v[k], graph)
}

proof fn lemma_listed(r: Reading, v: Seq<int>, graph: bool)
    requires
        in_rows(r, v),
    ensures
        forall|k: int|
            0 <= k < v.len() && r.row(#[trigger] v[k]) < text::text_lines(r.text).len() ==> lists(
                definitions::definitions_of(r, v, graph),
                r.row(v[k]),
            ),
        forall|j: int|
            0 <= j < definitions::definitions_of(r, v, graph).len() ==> is_of(
                #[trigger] definitions::definitions_of(r, v, graph)[j],
                r,
                v,
                graph,
            ),
    decreases v.len(),
{
    if v.len() > 0 {
        let p = v.drop_last();
        assert forall|a: int, b: int| 0 <= a < b < p.len() implies r.row(#[trigger] p[a]) <= r.row(
            #[trigger] p[b],
        ) by {
            assert(r.row(v[a]) <= r.row(v[b]));
        }
        lemma_listed(r, p, graph);
        let few = definitions::definitions_of(r, p, graph);
        let all = definitions::definitions_of(r, v, graph);
        assert forall|k: int| 0 <= k < v.len() && r.row(#[trigger] v[k]) < text::text_lines(
            r.text,
        ).len() implies lists(all, r.row(v[k])) by {
            if k < p.len() {
                assert(p[k] == v[k]);
                let j = choose|j: int| 0 <= j < few.len() && (#[trigger] few[j]).line == r.row(v[k]);
                assert(all[j] == few[j]);
            } else if all.len() > few.len() {
                assert(all[few.len() as int].line == r.row(v[k]));
            } else {
                let last = few.len() - 1;
                assert(is_of(few[last], r, p, graph));
                let b = choose|b: int|
                    0 <= b < p.len() && few[last] == definitions::definition(
                        r,
                        #[trigger] p[b],
                        graph,
                    );
                assert(few[last].line == r.row(p[b]));
                assert(v[b] == p[b]);
                assert(r.row(v[b]) <= r.row(v[k]));
                assert(all[last].line == r.row(v[k]));
            }
        }
        assert forall|j: int| 0 <= j < all.len() implies is_of(#[trigger] all[j], r, v, graph) by {
            if j < few.len() {
                assert(is_of(few[j], r, p, graph));
                let b = choose|b: int|
                    0 <= b < p.len() && few[j] == definitions::definition(r, #[trigger] p[b], graph);
                assert(v[b] == p[b]);
            } else {
                assert(all[j] == definitions::definition(r, v[v.len() - 1], graph));
            }
        }
    }
}

/// Every line of the file that holds the name of a definition is listed.
pub proof fn law_every_definition_is_listed(r: Reading, graph: bool, i: int)
    requires
        0 <= i < r.steps.len(),
        text::has(r.name(i), "name.definition"@),
        r.row(i) < text::text_lines(r.text).len(),
    ensures
        lists(definitions::definitions(r, graph), r.row(i)),
{
    let v = definitions::by_row(r, r.steps.len() as int);
    lemma_by_row(r, r.steps.len() as int);
    lemma_listed(r, v, graph);
    assert(v.contains(i));
    let k = choose|k: int| 0 <= k < v.len() && v[k] == i;
    assert(r.row(v[k]) == r.row(i));
}

/// Whatever is listed shows the line on which the name of some definition stands, with its
/// indentation; without a call graph it shows nothing more.
pub proof fn law_only_definitions_are_listed(r: Reading, graph: bool, j: int)
    requires
        0 <= j < definitions::definitions(r, graph).len(),
    ensures
        exists|i: int|
            0 <= i < r.steps.len() && text::has(#[trigger] r.name(i), "name.definition"@)
                && shows_line(definitions::definitions(r, graph)[j], r, i),
        !graph ==> definitions::definitions(r, graph)[j].line_count is None,
        !graph ==> definitions::definitions(r, graph)[j].calls is None,
{
    let v = definitions::by_row(r, r.steps.len() as int);
    lemma_by_row(r, r.steps.len() as int);
    lemma_listed(r, v, graph);
    let d = definitions::definitions(r, graph)[j];
    assert(is_of(d, r, v, graph));
    let k = choose|k: int| 0 <= k < v.len() && d == definitions::definition(r, #[trigger] v[k], graph);
    assert(v.contains(v[k]));
    assert(shows_line(d, r, v[k]));
    assert(text::has(r.name(v[k]), "name.definition"@));
}

/// The definition shows the line on which a step stands.
pub open spec fn shows_line(d: Definition, r: Reading, i: int) -> bool {
    &&& d.line == r.row(i)
    &&& d.text == text::text_lines(r.text)[r.row(i)]
    &&& is_indentation(d.indentation, d.text)
}

/// The white space at the front of a line, and all of it.
pub open spec fn is_indentation(white: Seq<char>, line: Seq<char>) -> bool {
    white == text::leading_white(line)
}

/// The indentation of a line is its front, holds nothing but white space, and no white
/// space follows it.
pub proof fn law_indentation(line: Seq<char>)
    ensures
        ({
            let w = text::leading_white(line);
            &&& w.len() <= line.len()
            &&& line.take(w.len() as int) == w
            &&& forall|i: int| 0 <= i < w.len() ==> text::is_white(#[trigger] w[i])
            &&& w.len() < line.len() ==> !text::is_white(line[w.len() as int])
        }),
    decreases line.len(),
{
    let w = text::leading_white(line);
    lemma_trimmed(line);
    assert(line.take(w.len() as int) =~= w);
}

proof fn lemma_trimmed(s: Seq<char>)
    ensures
        ({
            let t = text::trimmed_start(s);
            let n = s.len() - t.len();
            &&& 0 <= n
            &&& t == s.skip(n)
            &&& forall|i: int| 0 <= i < n ==> text::is_white(#[trigger] s[i])
            &&& t.len() > 0 ==> !text::is_white(t[0])
        }),
    decreases s.len(),
{
    if s.len() > 0 && text::is_white(s[0]) {
        let q = s.drop_first();
        lemma_trimmed(q);
        let t = text::trimmed_start(s);
        let n = s.len() - t.len();
        assert(t =~= s.skip(n));
        assert forall|i: int| 0 <= i < n implies text::is_white(#[trigger] s[i]) by {
            if i > 0 {
                assert(q[i - 1] == s[i]);
            }
        }
    } else {
        assert(s.skip(0) =~= s);
    }
}

// ---------------------------------------------------------------------------
// What encloses a node
// ---------------------------------------------------------------------------

/// A node stands around another, or is that node.
pub open spec fn stands_around(r: Reading, d: int, n: int) -> bool
    decreases n,
{
    d == n || (r.nodes[n].parent is Some && 0 <= r.nodes[n].parent->0 < n && stands_around(
        r,
        d,
        r.nodes[n].parent->0,
    ))
}

/// The innermost definition around a node stands around it and is captured as a definition,
/// and no captured definition stands between the two.
pub proof fn law_innermost_definition(r: Reading, n: int, e: int)
    ensures
        definitions::enclosing(r, n) is Some ==> stands_around(
            r,
            definitions::enclosing(r, n)->0,
            n,
        ) && definitions::is_defining(r, definitions::enclosing(r, n)->0),
        definitions::enclosing(r, n) is Some && stands_around(r, e, n)
            && definitions::is_defining(r, e) ==> e <= definitions::enclosing(r, n)->0,
        definitions::enclosing(r, n) is None && stands_around(r, e, n) ==> !definitions::is_defining(
            r,
            e,
        ),
    decreases n,
{
    if !definitions::is_defining(r, n) {
        if let Some(p) = r.nodes[n].parent {
            if 0 <= p < n {
                law_innermost_definition(r, p, e);
                lemma_around_is_before(r, e, p);
            }
        }
    } else {
        lemma_around_is_before(r, e, n);
    }
}

proof fn lemma_around_is_before(r: Reading, d: int, n: int)
    ensures
        stands_around(r, d, n) ==> d <= n,
    decreases n,
{
    if d != n {
        if let Some(p) = r.nodes[n].parent {
            if 0 <= p < n {
                lemma_around_is_before(r, d, p);
            }
        }
    }
}

/// With a call graph, the definition of a function shows how many rows the definition around
/// its name spans, and which functions it calls.
pub proof fn law_functions_show_their_size(r: Reading, i: int, d: int)
    requires
        definitions::enclosing(r, r.node(i)) == Some(d),
        text::has(r.name(i), "name.definition.function"@) || text::has(
            r.name(i),
            "name.definition.method"@,
        ),
    ensures
        ({
            let x = definitions::definition(r, i, true);
            let calls = definitions::local_calls(
                r,
                r.nodes[d].start_row,
                r.nodes[d].end_row,
                r.node_text(r.node(i)),
                r.steps.len() as int,
            );
            &&& x.line_count == Some(r.nodes[d].end_row - r.nodes[d].start_row + 1)
            &&& calls.len() > 0 ==> x.calls == Some(calls)
            &&& calls.len() == 0 ==> x.calls is None
        }),
{
}

// ---------------------------------------------------------------------------
// Calls
// ---------------------------------------------------------------------------

/// A function or a method of the file has the name.
pub open spec fn has_function(r: Reading, t: Seq<char>) -> bool {
    exists|j: int|
        #![trigger r.steps[j]]
        0 <= j < r.steps.len() && (text::has(r.name(j), "name.definition.function"@) || text::has(
            r.name(j),
            "name.definition.method"@,
        )) && r.node_text(r.node(j)) == t
}

/// The kinds of nodes that call.
pub open spec fn calls_something(k: Seq<char>) -> bool {
    ||| k == "call"@
    ||| k == "call_expression"@
    ||| k == "method_invocation"@
    ||| k == "function_call_expression"@
    ||| k == "member_call_expression"@
    ||| k == "invocation_expression"@
}

/// The kinds of nodes that name a member.
pub open spec fn names_member(k: Seq<char>) -> bool {
    ||| k == "member_expression"@
    ||| k == "member_access_expression"@
    ||| k == "property_access"@
    ||| k == "member_call_expression"@
}

/// The node stands directly in a call, or in a member that does.
pub open spec fn is_called(r: Reading, n: int) -> bool {
    let p = r.nodes[n].parent;
    p is Some && (calls_something(r.nodes[p->0].kind) || (names_member(r.nodes[p->0].kind)
        && r.nodes[p->0].parent is Some && calls_something(r.nodes[r.nodes[p->0].parent->0].kind)))
}

/// A step calls a function of the file by its name, within rows.
pub open spec fn calls_it(r: Reading, i: int, from: int, to: int, t: Seq<char>) -> bool {
    &&& text::has(r.name(i), "name.reference"@)
    &&& !text::has(r.name(i), "name.definition.function"@)
    &&& !text::has(r.name(i), "name.definition.method"@)
    &&& from <= r.row(i) <= to
    &&& r.node_text(r.node(i)) == t
    &&& has_function(r, t)
    &&& is_called(r, r.node(i))
}

/// The calls of a definition are the functions of the file that are called in its rows, but
/// not its own name; each stands once.
pub proof fn law_calls_are_those_made(r: Reading, from: int, to: int, own: Seq<char>, n: int)
    requires
        0 <= n <= r.steps.len(),
    ensures
        definitions::local_calls(r, from, to, own, n).no_duplicates(),
        forall|t: Seq<char>| #[trigger]
            definitions::local_calls(r, from, to, own, n).contains(t) <==> t != own && exists|i: int|
                0 <= i < n && #[trigger] calls_it(r, i, from, to, t),
    decreases n,
{
    let all = definitions::local_calls(r, from, to, own, n);
    if n > 0 {
        law_calls_are_those_made(r, from, to, own, n - 1);
        let few = definitions::local_calls(r, from, to, own, n - 1);
        let name = r.node_text(r.node(n - 1));
        assert(definitions::is_defined(r, name) == has_function(r, name));
        assert(definitions::is_call(r, r.node(n - 1)) == is_called(r, r.node(n - 1)));
        let adds = definitions::is_local_call(r, n - 1, from, to, own);
        assert(adds == (calls_it(r, n - 1, from, to, name) && name != own));
        assert forall|t: Seq<char>| #[trigger] all.contains(t) <==> t != own && exists|i: int|
            0 <= i < n && #[trigger] calls_it(r, i, from, to, t) by {
            if all.contains(t) {
                if few.contains(t) {
                    let i = choose|i: int| 0 <= i < n - 1 && #[trigger] calls_it(r, i, from, to, t);
                    assert(calls_it(r, i, from, to, t));
                } else {
                    let k = choose|k: int| 0 <= k < all.len() && all[k] == t;
                    if k < few.len() {
                        assert(few[k] == t);
                    }
                    assert(t == name);
                    assert(calls_it(r, n - 1, from, to, t));
                }
            }
            if t != own && exists|i: int| 0 <= i < n && #[trigger] calls_it(r, i, from, to, t) {
                let i = choose|i: int| 0 <= i < n && #[trigger] calls_it(r, i, from, to, t);
                if i < n - 1 {
                    assert(few.contains(t));
                    let k = choose|k: int| 0 <= k < few.len() && few[k] == t;
                    assert(all[k] == t);
                } else {
                    assert(adds);
                    if few.contains(name) {
                        assert(all == few);
                    } else {
                        assert(all[few.len() as int] == name);
                    }
                }
            }
        }
    }
}

// ---------------------------------------------------------------------------
// Skeletons
// ---------------------------------------------------------------------------

/// A definition below those shown so far adds its line as it is shown, after a rule where
/// lines are left out between; nothing that was shown changes.
pub proof fn law_skeleton_grows_by_lines(
    v: Seq<Definition>,
    d: Definition,
    shown: Seq<Seq<char>>,
)
    requires
        v.len() == 0 || d.line > v.last().line,
        d.line >= 0,
        forall|i: int, j: int|
            0 <= i < j < v.len() ==> (#[trigger] v[i]).line < (#[trigger] v[j]).line,
        forall|i: int| 0 <= i < v.len() ==> (#[trigger] v[i]).line >= 0,
    ensures
        ({
            let before = definitions::skeleton_body(v, shown, false);
            let after = definitions::skeleton_body(v.push(d), shown, false);
            let line = "│"@ + shown[d.line] + "\n"@;
            &&& v.len() == 0 ==> after.0 == line
            &&& v.len() > 0 && d.line == v.last().line + 1 ==> after.0 == before.0 + line
            &&& v.len() > 0 && d.line > v.last().line + 1 ==> after.0 == before.0 + "|----\n"@
                + line
        }),
{
    assert(v.push(d).drop_last() =~= v);
    lemma_last_line(v, shown, false);
    let before = definitions::skeleton_body(v, shown, false);
    let after = definitions::skeleton_body(v.push(d), shown, false);
    let line = "│"@ + shown[d.line] + "\n"@;
    let rule = if before.1 != -1 && d.line > before.1 + 1 {
        "|----\n"@
    } else {
        Seq::empty()
    };
    assert(after.0 =~= before.0 + rule + line);
    assert(before.0 + Seq::<char>::empty() =~= before.0);
    if v.len() == 0 {
        assert(before.0 + line =~= line);
    }
}

proof fn lemma_last_line(v: Seq<Definition>, shown: Seq<Seq<char>>, graph: bool)
    requires
        forall|i: int, j: int|
            0 <= i < j < v.len() ==> (#[trigger] v[i]).line < (#[trigger] v[j]).line,
        forall|i: int| 0 <= i < v.len() ==> (#[trigger] v[i]).line >= 0,
    ensures
        definitions::skeleton_body(v, shown, graph).1 == (if v.len() == 0 {
            -1
        } else {
            v.last().line
        }),
    decreases v.len(),
{
    if v.len() > 0 {
        let p = v.drop_last();
        assert forall|i: int, j: int| 0 <= i < j < p.len() implies (#[trigger] p[i]).line < (
        #[trigger] p[j]).line by {
            assert(v[i].line < v[j].line);
        }
        assert forall|i: int| 0 <= i < p.len() implies (#[trigger] p[i]).line >= 0 by {
            assert(v[i].line >= 0);
        }
        lemma_last_line(p, shown, graph);
        if p.len() > 0 {
            assert(v[p.len() - 1].line < v[p.len() as int].line);
        }
        assert(v[v.len() - 1].line >= 0);
    }
}

/// A skeleton stands between two rules, and there is one where anything is shown.
pub proof fn law_skeleton_stands_between_rules(
    v: Seq<Definition>,
    shown: Seq<Seq<char>>,
    graph: bool,
)
    ensures
        ({
            let body = definitions::skeleton_body(v, shown, graph).0;
            let s = definitions::skeleton(v, shown, graph);
            &&& body.len() == 0 ==> s is None
            &&& body.len() > 0 ==> s == Some("|----\n"@ + body + "|----\n"@)
        }),
{
}

/// A definition with a size tells it, and one with calls lists them all, in the order of
/// their names; neither is told of one without.
pub proof fn law_details_tell_size_and_calls(d: Definition, n: nat, calls: Seq<Seq<char>>)
    ensures
        ({
            let size = "│"@ + d.indentation + "    # Lines: "@ + text::decimal(n) + "\n"@;
            let list = "│"@ + d.indentation + "    # Calls: ["@ + text::joined(
                text::ordered(calls),
                ", "@,
            ) + "]\n"@;
            &&& definitions::details(Definition { line_count: None, calls: None, ..d }).len() == 0
            &&& definitions::details(Definition { line_count: Some(n as int), calls: None, ..d })
                == size
            &&& definitions::details(Definition { line_count: None, calls: Some(calls), ..d })
                == list
            &&& definitions::details(
                Definition { line_count: Some(n as int), calls: Some(calls), ..d },
            ) == size + list
        }),
{
    let size = "│"@ + d.indentation + "    # Lines: "@ + text::decimal(n) + "\n"@;
    let list = "│"@ + d.indentation + "    # Calls: ["@ + text::joined(
        text::ordered(calls),
        ", "@,
    ) + "]\n"@;
    assert(size + Seq::<char>::empty() =~= size);
    assert(Seq::<char>::empty() + list =~= list);
}

} // verus!
