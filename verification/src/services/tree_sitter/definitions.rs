//! What a file defines, and its skeleton.

use crate::services::tree_sitter::code;
use crate::services::tree_sitter::code::{Code, Reading};
use crate::services::tree_sitter::parser;
use crate::services::tree_sitter::parser::{
    Failure, LanguageParserError, LanguageParserMap, LanguageValue,
};
use crate::services::tree_sitter::syntax;
use crate::text;
use vstd::prelude::*;

verus! {

/// A parsed definition from a source file.
#[derive(Debug, Clone)]
pub struct ParsedDefinition {
    pub line_index: usize,
    pub text: String,
    pub indentation: String,
    pub line_count: Option<usize>,
    pub calls: Option<Vec<String>>,
}

/// Options for parsing a file.
#[derive(Debug, Clone, Copy)]
pub struct ParseOptions {
    pub show_call_graph: bool,
}

impl Default for ParseOptions {
    fn default() -> (r: Self)
        ensures
            !r.show_call_graph,
    {
        ParseOptions { show_call_graph: false }
    }
}

/// The mathematical value of a definition.
pub struct Definition {
    pub line: int,
    pub text: Seq<char>,
    pub indentation: Seq<char>,
    pub line_count: Option<int>,
    pub calls: Option<Seq<Seq<char>>>,
}

impl View for ParsedDefinition {
    type V = Definition;

    open spec fn view(&self) -> Definition {
        Definition {
            line: self.line_index as int,
            text: self.text@,
            indentation: self.indentation@,
            line_count: syntax::opt_position(self.line_count),
            calls: match self.calls {
                Some(v) => Some(text::texts(v@)),
                None => None,
            },
        }
    }
}

/// The values of a list of definitions.
pub open spec fn definition_values(v: Seq<ParsedDefinition>) -> Seq<Definition> {
    v.map_values(|d: ParsedDefinition| d@)
}

// ---------------------------------------------------------------------------
// Calls
// ---------------------------------------------------------------------------

/// The kind of a node that calls something.
pub open spec fn is_call_kind(k: Seq<char>) -> bool {
    k == "call"@ || k == "call_expression"@ || k == "method_invocation"@ || k
        == "function_call_expression"@ || k == "member_call_expression"@ || k
        == "invocation_expression"@
}

/// The kind of a node that names a member of something.
pub open spec fn is_member_kind(k: Seq<char>) -> bool {
    k == "member_expression"@ || k == "member_access_expression"@ || k == "property_access"@ || k
        == "member_call_expression"@
}

/// The node is what a call calls: a child of a call, or of a member that is one.
pub open spec fn is_call(r: Reading, n: int) -> bool {
    match r.nodes[n].parent {
        None => false,
        Some(p) => is_call_kind(r.nodes[p].kind) || (is_member_kind(r.nodes[p].kind) && (
        match r.nodes[p].parent {
            Some(g) => is_call_kind(r.nodes[g].kind),
            None => false,
        })),
    }
}

fn call_kind(k: &str) -> (r: bool)
    ensures
        r == is_call_kind(k@),
{
    text::same(k, "call") || text::same(k, "call_expression") || text::same(
        k,
        "method_invocation",
    ) || text::same(k, "function_call_expression") || text::same(k, "member_call_expression")
        || text::same(k, "invocation_expression")
}

fn member_kind(k: &str) -> (r: bool)
    ensures
        r == is_member_kind(k@),
{
    text::same(k, "member_expression") || text::same(k, "member_access_expression") || text::same(
        k,
        "property_access",
    ) || text::same(k, "member_call_expression")
}

/// Checks if a reference node is a call node.
pub fn is_call_node(c: &Code, n: usize) -> (r: bool)
    requires
        c.wf(),
        n < c.nodes@.len(),
    ensures
        r == is_call(c@, n as int),
{
    assert(c@.nodes[n as int] == c.nodes@[n as int]@);
    assert(code::node_fits(c@, n as int));
    match c.nodes[n].parent {
        None => false,
        Some(p) => {
            assert(c@.nodes[p as int] == c.nodes@[p as int]@);
            assert(code::node_fits(c@, p as int));
            if call_kind(c.nodes[p].kind.as_str()) {
                return true;
            }
            if !member_kind(c.nodes[p].kind.as_str()) {
                return false;
            }
            match c.nodes[p].parent {
                None => false,
                Some(g) => {
                    assert(c@.nodes[g as int] == c.nodes@[g as int]@);
                    call_kind(c.nodes[g].kind.as_str())
                },
            }
        },
    }
}

// ---------------------------------------------------------------------------
// Captures
// ---------------------------------------------------------------------------

/// A capture of a whole definition.
pub open spec fn names_definition(name: Seq<char>) -> bool {
    text::has(name, "definition"@) && !text::has(name, "name.definition"@)
}

/// A capture of the name of a function or a method.
pub open spec fn names_function(name: Seq<char>) -> bool {
    text::has(name, "name.definition.function"@) || text::has(name, "name.definition.method"@)
}

/// A capture of the name of something that spans lines.
pub open spec fn names_block(name: Seq<char>) -> bool {
    names_function(name) || text::has(name, "name.definition.class"@) || text::has(
        name,
        "name.definition.interface"@,
    )
}

/// A capture of a reference.
pub open spec fn names_reference(name: Seq<char>) -> bool {
    !names_function(name) && text::has(name, "name.reference"@)
}

fn is_function_name(name: &str) -> (r: bool)
    ensures
        r == names_function(name@),
{
    text::contains(name, "name.definition.function") || text::contains(
        name,
        "name.definition.method",
    )
}

/// One of the first `k` steps captures the node as a whole definition.
pub open spec fn defining_in(r: Reading, n: int, k: int) -> bool {
    exists|i: int|
        #![trigger r.steps[i]]
        0 <= i < k && names_definition(r.name(i)) && r.node(i) == n
}

/// The node is captured as a whole definition.
pub open spec fn is_defining(r: Reading, n: int) -> bool {
    defining_in(r, n, r.steps.len() as int)
}

/// One of the first `k` steps captures the name as that of a function or a method.
pub open spec fn defined_in(r: Reading, t: Seq<char>, k: int) -> bool {
    exists|i: int|
        #![trigger r.steps[i]]
        0 <= i < k && names_function(r.name(i)) && r.node_text(r.node(i)) == t
}

/// A function or a method of the file has this name.
pub open spec fn is_defined(r: Reading, t: Seq<char>) -> bool {
    defined_in(r, t, r.steps.len() as int)
}

/// The innermost definition that holds a node.
pub open spec fn enclosing(r: Reading, n: int) -> Option<int>
    decreases n,
{
    if is_defining(r, n) {
        Some(n)
    } else {
        match r.nodes[n].parent {
            Some(p) => if 0 <= p < n {
                enclosing(r, p)
            } else {
                None
            },
            None => None,
        }
    }
}

/// A step is a call of a function of the file, made between two rows, of a name other
/// than `own`.
pub open spec fn is_local_call(r: Reading, i: int, from: int, to: int, own: Seq<char>) -> bool {
    &&& names_reference(r.name(i))
    &&& from <= r.row(i) <= to
    &&& is_defined(r, r.node_text(r.node(i)))
    &&& r.node_text(r.node(i)) != own
    &&& is_call(r, r.node(i))
}

/// The functions of the file that are called between two rows, each once, in the order
/// of the first `n` steps.
pub open spec fn local_calls(r: Reading, from: int, to: int, own: Seq<char>, n: int) -> Seq<
    Seq<char>,
>
    decreases n,
{
    if n <= 0 {
        Seq::empty()
    } else if is_local_call(r, n - 1, from, to, own) {
        text::with_text(local_calls(r, from, to, own, n - 1), r.node_text(r.node(n - 1)))
    } else {
        local_calls(r, from, to, own, n - 1)
    }
}

/// The definition whose name a step captures.
pub open spec fn definition(r: Reading, i: int, graph: bool) -> Definition {
    let line = text::text_lines(r.text)[r.row(i)];
    let plain = Definition {
        line: r.row(i),
        text: line,
        indentation: text::leading_white(line),
        line_count: None,
        calls: None,
    };
    match enclosing(r, r.node(i)) {
        Some(d) => if graph {
            let from = r.nodes[d].start_row;
            let to = r.nodes[d].end_row;
            let calls = local_calls(r, from, to, r.node_text(r.node(i)), r.steps.len() as int);
            Definition {
                line_count: if names_block(r.name(i)) {
                    Some(to - from + 1)
                } else {
                    None
                },
                calls: if names_function(r.name(i)) && calls.len() > 0 {
                    Some(calls)
                } else {
                    None
                },
                ..plain
            }
        } else {
            plain
        },
        None => plain,
    }
}

/// Steps in the order of their rows, with one more in its place: after those on the same
/// row.
pub open spec fn by_row_with(r: Reading, v: Seq<int>, i: int) -> Seq<int>
    decreases v.len(),
{
    if v.len() == 0 || r.row(v.last()) <= r.row(i) {
        v.push(i)
    } else {
        by_row_with(r, v.drop_last(), i).push(v.last())
    }
}

/// Those of the first `n` steps that capture the name of a definition, in the order of
/// their rows.
pub open spec fn by_row(r: Reading, n: int) -> Seq<int>
    decreases n,
{
    if n <= 0 {
        Seq::empty()
    } else if text::has(r.name(n - 1), "name.definition"@) {
        by_row_with(r, by_row(r, n - 1), n - 1)
    } else {
        by_row(r, n - 1)
    }
}

/// The definitions of steps in the order of their rows: the first of each row.
pub open spec fn definitions_of(r: Reading, v: Seq<int>, graph: bool) -> Seq<Definition>
    decreases v.len(),
{
    if v.len() == 0 {
        Seq::empty()
    } else {
        let rest = definitions_of(r, v.drop_last(), graph);
        let row = r.row(v.last());
        if row < text::text_lines(r.text).len() && (rest.len() == 0 || row > rest.last().line) {
            rest.push(definition(r, v.last(), graph))
        } else {
            rest
        }
    }
}

/// The definitions of a file, in the order of their lines.
pub open spec fn definitions(r: Reading, graph: bool) -> Seq<Definition> {
    definitions_of(r, by_row(r, r.steps.len() as int), graph)
}

/// The definitions of a file stand on lines of their own, in order, and each shows its
/// line.
pub proof fn law_definitions_are_in_order(r: Reading, graph: bool)
    requires
        r.sound(),
    ensures
        forall|i: int, j: int|
            0 <= i < j < definitions(r, graph).len() ==> (#[trigger] definitions(
                r,
                graph,
            )[i]).line < (#[trigger] definitions(r, graph)[j]).line,
        forall|i: int|
            0 <= i < definitions(r, graph).len() ==> 0 <= (#[trigger] definitions(
                r,
                graph,
            )[i]).line < text::text_lines(r.text).len() && definitions(r, graph)[i].text
                == text::text_lines(r.text)[definitions(r, graph)[i].line],
{
    lemma_by_row(r, r.steps.len() as int);
    lemma_definitions_of(r, by_row(r, r.steps.len() as int), graph);
}

proof fn lemma_by_row(r: Reading, n: int)
    requires
        r.sound(),
        0 <= n <= r.steps.len(),
    ensures
        forall|k: int| 0 <= k < by_row(r, n).len() ==> 0 <= #[trigger] by_row(r, n)[k] < n,
    decreases n,
{
    if n > 0 {
        lemma_by_row(r, n - 1);
        if text::has(r.name(n - 1), "name.definition"@) {
            lemma_by_row_with(r, by_row(r, n - 1), n - 1);
            assert forall|k: int| 0 <= k < by_row(r, n).len() implies 0 <= #[trigger] by_row(
                r,
                n,
            )[k] < n by {
                if by_row(r, n)[k] != n - 1 {
                    assert(by_row(r, n - 1).contains(by_row(r, n)[k]));
                }
            }
        }
    }
}

proof fn lemma_by_row_with(r: Reading, v: Seq<int>, i: int)
    ensures
        forall|k: int|
            0 <= k < by_row_with(r, v, i).len() ==> #[trigger] by_row_with(r, v, i)[k] == i
                || v.contains(by_row_with(r, v, i)[k]),
    decreases v.len(),
{
    let out = by_row_with(r, v, i);
    if v.len() == 0 || r.row(v.last()) <= r.row(i) {
        assert forall|k: int| 0 <= k < out.len() implies #[trigger] out[k] == i || v.contains(
            out[k],
        ) by {
            if k < v.len() {
                assert(v[k] == out[k]);
            }
        }
    } else {
        let p = v.drop_last();
        lemma_by_row_with(r, p, i);
        let q = by_row_with(r, p, i);
        assert forall|k: int| 0 <= k < out.len() implies #[trigger] out[k] == i || v.contains(
            out[k],
        ) by {
            if k < q.len() {
                assert(q[k] == out[k]);
                if q[k] != i {
                    let m = choose|m: int| 0 <= m < p.len() && p[m] == q[k];
                    assert(v[m] == out[k]);
                }
            } else {
                assert(v[v.len() - 1] == out[k]);
            }
        }
    }
}

proof fn lemma_definitions_of(r: Reading, v: Seq<int>, graph: bool)
    requires
        r.sound(),
        forall|k: int| 0 <= k < v.len() ==> 0 <= #[trigger] v[k] < r.steps.len(),
    ensures
        forall|i: int, j: int|
            0 <= i < j < definitions_of(r, v, graph).len() ==> (#[trigger] definitions_of(
                r,
                v,
                graph,
            )[i]).line < (#[trigger] definitions_of(r, v, graph)[j]).line,
        forall|i: int|
            0 <= i < definitions_of(r, v, graph).len() ==> 0 <= (#[trigger] definitions_of(
                r,
                v,
                graph,
            )[i]).line < text::text_lines(r.text).len() && definitions_of(r, v, graph)[i].text
                == text::text_lines(r.text)[definitions_of(r, v, graph)[i].line],
    decreases v.len(),
{
    if v.len() > 0 {
        let p = v.drop_last();
        assert(forall|k: int| 0 <= k < p.len() ==> p[k] == v[k]);
        lemma_definitions_of(r, p, graph);
        let rest = definitions_of(r, p, graph);
        let out = definitions_of(r, v, graph);
        if out.len() > rest.len() {
            let d = definition(r, v.last(), graph);
            assert(d.line == r.row(v.last()));
            assert(r.row(v.last()) >= 0) by {
                lemma_row_is_natural(r, v.last());
            }
            assert forall|i: int, j: int| 0 <= i < j < out.len() implies (#[trigger] out[i]).line
                < (#[trigger] out[j]).line by {
                if j < rest.len() {
                    assert(rest[i].line < rest[j].line);
                } else if i < rest.len() - 1 {
                    assert(rest[i].line < rest[rest.len() - 1].line);
                }
            }
            assert forall|i: int| 0 <= i < out.len() implies 0 <= (#[trigger] out[i]).line
                < text::text_lines(r.text).len() && out[i].text == text::text_lines(
                r.text,
            )[out[i].line] by {
                if i < rest.len() {
                    assert(rest[i] == out[i]);
                }
            }
        }
    }
}

proof fn lemma_row_is_natural(r: Reading, i: int)
    requires
        r.sound(),
        0 <= i < r.steps.len(),
    ensures
        r.row(i) >= 0,
{
    assert(code::step_fits(r, i));
    assert(code::node_fits(r, r.node(i)));
}

// ---------------------------------------------------------------------------
// Reading definitions
// ---------------------------------------------------------------------------

/// For each node whether it is captured as a whole definition.
fn mark_definitions(c: &Code) -> (r: Vec<bool>)
    requires
        c.wf(),
    ensures
        r@.len() == c.nodes@.len(),
        forall|n: int| 0 <= n < r@.len() ==> #[trigger] r@[n] == is_defining(c@, n),
{
    let mut marks: Vec<bool> = Vec::new();
    let total: usize = c.nodes.len();
    let mut j: usize = 0;
    while j < total
        invariant
            j <= total,
            marks@.len() == j,
            forall|n: int| 0 <= n < j ==> !(#[trigger] marks@[n]),
        decreases total - j,
    {
        marks.push(false);
        j = j + 1;
    }
    let mut k: usize = 0;
    while k < c.steps.len()
        invariant
            c.wf(),
            k <= c.steps@.len(),
            marks@.len() == c.nodes@.len(),
            forall|n: int|
                0 <= n < marks@.len() ==> #[trigger] marks@[n] == defining_in(c@, n, k as int),
        decreases c.steps@.len() - k,
    {
        let name = c.name(k);
        let node: usize = c.node(k);
        let ghost before = marks@;
        let found = text::contains(name, "definition") && !text::contains(name, "name.definition");
        if found {
            marks[node] = true;
        }
        assert forall|n: int| 0 <= n < marks@.len() implies #[trigger] marks@[n] == defining_in(
            c@,
            n,
            k + 1,
        ) by {
            assert(before[n] == defining_in(c@, n, k as int));
            if defining_in(c@, n, k as int) {
                let i = choose|i: int|
                    #![trigger c@.steps[i]]
                    0 <= i < k && names_definition(c@.name(i)) && c@.node(i) == n;
                assert(c@.steps[i] == c@.steps[i]);
            }
            if found && n == node {
                assert(c@.steps[k as int] == c@.steps[k as int]);
            }
        }
        k = k + 1;
    }
    marks
}

/// The names of the functions and methods of a file.
fn defined_names(c: &Code) -> (r: Vec<String>)
    requires
        c.wf(),
    ensures
        forall|t: Seq<char>| #[trigger] text::texts(r@).contains(t) == is_defined(c@, t),
{
    let mut out: Vec<String> = Vec::new();
    let mut k: usize = 0;
    while k < c.steps.len()
        invariant
            c.wf(),
            k <= c.steps@.len(),
            forall|t: Seq<char>|
                #[trigger] text::texts(out@).contains(t) == defined_in(c@, t, k as int),
        decreases c.steps@.len() - k,
    {
        let ghost before = text::texts(out@);
        let found = is_function_name(c.name(k));
        let ghost own = c@.node_text(c@.node(k as int));
        if found {
            let n: usize = c.node(k);
            let t = c.node_text(n);
            text::add_text(&mut out, t.as_str());
        }
        assert forall|t: Seq<char>| #[trigger] text::texts(out@).contains(t) == defined_in(
            c@,
            t,
            k + 1,
        ) by {
            assert(before.contains(t) == defined_in(c@, t, k as int));
            assert(text::texts(out@).contains(t) == (before.contains(t) || (found && t == own)))
                by {
                if found && !before.contains(own) {
                    let now = before.push(own);
                    assert(now[before.len() as int] == own);
                    if before.contains(t) {
                        let i = choose|i: int| 0 <= i < before.len() && before[i] == t;
                        assert(now[i] == t);
                    }
                }
            }
            if defined_in(c@, t, k as int) {
                let i = choose|i: int|
                    #![trigger c@.steps[i]]
                    0 <= i < k && names_function(c@.name(i)) && c@.node_text(c@.node(i)) == t;
                assert(c@.steps[i] == c@.steps[i]);
            }
            if found && t == own {
                assert(c@.steps[k as int] == c@.steps[k as int]);
            }
        }
        k = k + 1;
    }
    out
}

/// The name that a step calls, where it is a call of a function of the file.
pub open spec fn called_name(r: Reading, i: int) -> Option<Seq<char>> {
    let t = r.node_text(r.node(i));
    if names_reference(r.name(i)) && is_defined(r, t) && is_call(r, r.node(i)) {
        Some(t)
    } else {
        None
    }
}

fn called_names(c: &Code) -> (r: Vec<Option<String>>)
    requires
        c.wf(),
    ensures
        r@.len() == c.steps@.len(),
        forall|i: int| 0 <= i < r@.len() ==> text::opt(#[trigger] r@[i]) == called_name(c@, i),
{
    let names = defined_names(c);
    let mut out: Vec<Option<String>> = Vec::new();
    let mut k: usize = 0;
    while k < c.steps.len()
        invariant
            c.wf(),
            k <= c.steps@.len(),
            forall|t: Seq<char>| #[trigger] text::texts(names@).contains(t) == is_defined(c@, t),
            out@.len() == k,
            forall|i: int| 0 <= i < k ==> text::opt(#[trigger] out@[i]) == called_name(c@, i),
        decreases c.steps@.len() - k,
    {
        let name = c.name(k);
        let mut found: Option<String> = None;
        if !is_function_name(name) && text::contains(name, "name.reference") {
            let n: usize = c.node(k);
            let t = c.node_text(n);
            if text::holds(&names, t.as_str()) && is_call_node(c, n) {
                found = Some(t);
            }
        }
        out.push(found);
        k = k + 1;
    }
    out
}

fn calls_between(
    c: &Code,
    called: &Vec<Option<String>>,
    from: usize,
    to: usize,
    own: &str,
) -> (r: Vec<String>)
    requires
        c.wf(),
        called@.len() == c.steps@.len(),
        forall|i: int|
            0 <= i < called@.len() ==> text::opt(#[trigger] called@[i]) == called_name(c@, i),
    ensures
        text::texts(r@) == local_calls(
            c@,
            from as int,
            to as int,
            own@,
            c.steps@.len() as int,
        ),
{
    let mut out: Vec<String> = Vec::new();
    let mut k: usize = 0;
    assert(text::texts(out@) =~= Seq::empty());
    while k < c.steps.len()
        invariant
            c.wf(),
            k <= c.steps@.len(),
            called@.len() == c.steps@.len(),
            forall|i: int|
                0 <= i < called@.len() ==> text::opt(#[trigger] called@[i]) == called_name(c@, i),
            text::texts(out@) == local_calls(c@, from as int, to as int, own@, k as int),
        decreases c.steps@.len() - k,
    {
        assert(text::opt(called@[k as int]) == called_name(c@, k as int));
        if let Some(t) = &called[k] {
            let row: usize = c.row(k);
            if from <= row && row <= to && !text::same(t.as_str(), own) {
                text::add_text(&mut out, t.as_str());
            }
        }
        k = k + 1;
    }
    out
}

fn find_enclosing(c: &Code, marks: &Vec<bool>, start: usize) -> (r: Option<usize>)
    requires
        c.wf(),
        start < c.nodes@.len(),
        marks@.len() == c.nodes@.len(),
        forall|n: int| 0 <= n < marks@.len() ==> #[trigger] marks@[n] == is_defining(c@, n),
    ensures
        syntax::opt_position(r) == enclosing(c@, start as int),
        r matches Some(n) ==> n < c.nodes@.len(),
{
    let mut n: usize = start;
    while !marks[n]
        invariant
            c.wf(),
            n < c.nodes@.len(),
            marks@.len() == c.nodes@.len(),
            forall|k: int| 0 <= k < marks@.len() ==> #[trigger] marks@[k] == is_defining(c@, k),
            enclosing(c@, n as int) == enclosing(c@, start as int),
        decreases n,
    {
        assert(c@.nodes[n as int] == c.nodes@[n as int]@);
        assert(code::node_fits(c@, n as int));
        match c.nodes[n].parent {
            Some(p) => {
                n = p;
            },
            None => {
                return None;
            },
        }
    }
    Some(n)
}

/// What is looked up while definitions are read.
struct Lookup {
    lines: Vec<String>,
    marks: Vec<bool>,
    called: Vec<Option<String>>,
}

impl Lookup {
    spec fn fits(&self, c: &Code) -> bool {
        &&& text::texts(self.lines@) == text::text_lines(c@.text)
        &&& self.marks@.len() == c.nodes@.len()
        &&& forall|n: int|
            0 <= n < self.marks@.len() ==> #[trigger] self.marks@[n] == is_defining(c@, n)
        &&& self.called@.len() == c.steps@.len()
        &&& forall|i: int|
            0 <= i < self.called@.len() ==> text::opt(#[trigger] self.called@[i]) == called_name(
                c@,
                i,
            )
    }
}

fn make_definition(c: &Code, look: &Lookup, i: usize, graph: bool) -> (r: ParsedDefinition)
    requires
        c.wf(),
        look.fits(c),
        i < c.steps@.len(),
        c@.row(i as int) < text::text_lines(c@.text).len(),
    ensures
        r@ == definition(c@, i as int, graph),
{
    let row: usize = c.row(i);
    assert(text::texts(look.lines@)[row as int] == look.lines@[row as int]@);
    let line = look.lines[row].as_str();
    let v = text::chars_of(line);
    let white: usize = text::white_prefix(&v);
    let indentation = text::substring(&v, 0, white);
    assert(indentation@ =~= text::leading_white(line@));
    let mut d = ParsedDefinition {
        line_index: row,
        text: line.to_owned(),
        indentation,
        line_count: None,
        calls: None,
    };
    if graph {
        let node: usize = c.node(i);
        if let Some(n) = find_enclosing(c, &look.marks, node) {
            assert(c@.nodes[n as int] == c.nodes@[n as int]@);
            assert(code::node_fits(c@, n as int));
            let from: usize = c.nodes[n].start_row;
            let to: usize = c.nodes[n].end_row;
            let name = c.name(i);
            if is_function_name(name) || text::contains(name, "name.definition.class")
                || text::contains(name, "name.definition.interface") {
                d.line_count = Some(to - from + 1);
            }
            let own = c.node_text(node);
            if is_function_name(name) {
                let calls = calls_between(c, &look.called, from, to, own.as_str());
                assert(text::texts(calls@).len() == calls@.len());
                if calls.len() > 0 {
                    d.calls = Some(calls);
                }
            }
        }
    }
    d
}

/// The numbers of a list as integers.
spec fn ints(v: Seq<usize>) -> Seq<int> {
    v.map_values(|n: usize| n as int)
}

fn put_by_row(c: &Code, v: &mut Vec<usize>, i: usize)
    requires
        c.wf(),
        i < c.steps@.len(),
        forall|k: int| 0 <= k < old(v)@.len() ==> #[trigger] old(v)@[k] < c.steps@.len(),
    ensures
        ints(final(v)@) == by_row_with(c@, ints(old(v)@), i as int),
        forall|k: int| 0 <= k < final(v)@.len() ==> #[trigger] final(v)@[k] < c.steps@.len(),
{
    let ghost ts = ints(v@);
    let ghost before = v@;
    let row: usize = c.row(i);
    let mut k: usize = v.len();
    assert(ts.take(k as int) =~= ts);
    assert(by_row_with(c@, ts, i as int) =~= by_row_with(c@, ts.take(k as int), i as int)
        + ts.skip(k as int));
    while k > 0 && c.row(v[k - 1]) > row
        invariant
            c.wf(),
            i < c.steps@.len(),
            row == c@.row(i as int),
            k <= v@.len(),
            v@ == before,
            ts == ints(v@),
            forall|j: int| 0 <= j < v@.len() ==> #[trigger] v@[j] < c.steps@.len(),
            by_row_with(c@, ts, i as int) == by_row_with(c@, ts.take(k as int), i as int)
                + ts.skip(k as int),
        decreases k,
    {
        let ghost p = ts.take(k as int);
        assert(p.last() == v@[k - 1]);
        assert(p.drop_last() =~= ts.take(k - 1));
        assert(by_row_with(c@, p, i as int) + ts.skip(k as int) =~= by_row_with(
            c@,
            ts.take(k - 1),
            i as int,
        ) + ts.skip(k - 1));
        k = k - 1;
    }
    assert(k > 0 ==> ts.take(k as int).last() == v@[k - 1]);
    v.insert(k, i);
    assert(ints(v@) =~= ts.take(k as int).push(i as int) + ts.skip(k as int));
}

/// The steps that capture the name of a definition, in the order of their rows.
fn order_by_row(c: &Code) -> (r: Vec<usize>)
    requires
        c.wf(),
    ensures
        ints(r@) == by_row(c@, c.steps@.len() as int),
        forall|k: int| 0 <= k < r@.len() ==> #[trigger] r@[k] < c.steps@.len(),
{
    let mut out: Vec<usize> = Vec::new();
    let mut k: usize = 0;
    assert(ints(out@) =~= Seq::empty());
    while k < c.steps.len()
        invariant
            c.wf(),
            k <= c.steps@.len(),
            ints(out@) == by_row(c@, k as int),
            forall|j: int| 0 <= j < out@.len() ==> #[trigger] out@[j] < c.steps@.len(),
        decreases c.steps@.len() - k,
    {
        if text::contains(c.name(k), "name.definition") {
            put_by_row(c, &mut out, k);
        }
        k = k + 1;
    }
    out
}

/// The definitions of a file, in the order of their lines.
pub fn read_definitions(c: &Code, content: &str, graph: bool) -> (r: Vec<ParsedDefinition>)
    requires
        c.wf(),
        content@ == c@.text,
    ensures
        definition_values(r@) == definitions(c@, graph),
{
    let look = Lookup {
        lines: text::lines(content),
        marks: mark_definitions(c),
        called: called_names(c),
    };
    let order = order_by_row(c);
    let ghost v = ints(order@);
    let mut out: Vec<ParsedDefinition> = Vec::new();
    let mut k: usize = 0;
    assert(definition_values(out@) =~= definitions_of(c@, v.take(0), graph));
    while k < order.len()
        invariant
            c.wf(),
            look.fits(c),
            k <= order@.len(),
            v == ints(order@),
            forall|j: int| 0 <= j < order@.len() ==> #[trigger] order@[j] < c.steps@.len(),
            definition_values(out@) == definitions_of(c@, v.take(k as int), graph),
        decreases order@.len() - k,
    {
        assert(v.take(k + 1).drop_last() =~= v.take(k as int));
        assert(v.take(k + 1).last() == order@[k as int]);
        let i: usize = order[k];
        let row: usize = c.row(i);
        let n: usize = out.len();
        let ghost before = definition_values(out@);
        assert(text::texts(look.lines@).len() == look.lines@.len());
        assert(n > 0 ==> before.last() == out@[n - 1]@);
        if row < look.lines.len() && (n == 0 || row > out[n - 1].line_index) {
            let d = make_definition(c, &look, i, graph);
            out.push(d);
            assert(definition_values(out@) =~= before.push(d@));
        }
        k = k + 1;
    }
    assert(v.take(k as int) =~= v);
    out
}

// ---------------------------------------------------------------------------
// Files
// ---------------------------------------------------------------------------

/// The reading of a text: its tree, and the captures of a query on all of it.
pub open spec fn reading(l: LanguageValue, text: Seq<char>) -> Option<Reading> {
    match (syntax::parsed(l.grammar, text), syntax::captured(l.grammar, l.query, text, 0)) {
        (Ok(Some(nodes)), Some(steps)) => Some(Reading { text, nodes, steps }),
        _ => None,
    }
}

/// What becomes of a file whose extension has a language: the message of an unfit
/// grammar, or the reading of the file, where it has one that fits its text.
pub open spec fn read(l: LanguageValue, text: Seq<char>) -> Result<Option<Reading>, Failure> {
    match syntax::parsed(l.grammar, text) {
        Err(m) => Err(Failure::Parser(m)),
        Ok(_) => match reading(l, text) {
            Some(r) => if r.sound() {
                Ok(Some(r))
            } else {
                Ok(None)
            },
            None => Ok(None),
        },
    }
}

/// A file whose extension has a language can be parsed.
pub open spec fn parses(
    path: Seq<char>,
    text: Seq<char>,
    parsers: Seq<(Seq<char>, parser::LanguageValue)>,
) -> bool {
    match parser::under(parsers, text::lowercased(parser::extension(path))) {
        Some(l) => syntax::parsed(l.grammar, text) matches Ok(Some(_)),
        None => false,
    }
}

/// Whether a file can be parsed.
pub fn has_tree(path: &str, content: &str, language_parsers: &LanguageParserMap) -> (r: bool)
    ensures
        r == parses(path@, content@, language_parsers@),
{
    let ext = parser::get_extension(path);
    match language_parsers.get(ext.as_str()) {
        Some(entry) => match syntax::parse(entry.grammar, content) {
            Ok(Some(_)) => true,
            _ => false,
        },
        None => false,
    }
}

/// Reads a file.
pub fn read_code(entry: &parser::LanguageParserEntry, content: &str) -> (r: Result<
    Option<Code>,
    LanguageParserError,
>)
    ensures
        r matches Ok(Some(c)) ==> c.wf() && c@.text == content@ && read(entry@, content@) == Ok::<
            Option<Reading>,
            Failure,
        >(Some(c@)),
        r matches Ok(None) ==> read(entry@, content@) == Ok::<Option<Reading>, Failure>(None),
        r matches Err(e) ==> read(entry@, content@) == Err::<Option<Reading>, Failure>(e@),
{
    match syntax::parse(entry.grammar, content) {
        Err(m) => Err(LanguageParserError::ParserCreation(m)),
        Ok(None) => Ok(None),
        Ok(Some(nodes)) => match syntax::capture(entry.grammar, entry.query, content, 0) {
            None => Ok(None),
            Some(steps) => Ok(Code::join(content, nodes, steps)),
        },
    }
}

/// The definitions of a file that has been read; none where it has none.
pub open spec fn found(r: Option<Reading>, graph: bool) -> Option<Seq<Definition>> {
    match r {
        Some(c) => if definitions(c, graph).len() > 0 {
            Some(definitions(c, graph))
        } else {
            None
        },
        None => None,
    }
}

/// What parsing a file gives.
pub open spec fn parse_outcome(
    path: Seq<char>,
    text: Seq<char>,
    parsers: Seq<(Seq<char>, LanguageValue)>,
    graph: bool,
) -> Result<Option<Seq<Definition>>, Failure> {
    match parser::under(parsers, text::lowercased(parser::extension(path))) {
        None => Ok(None),
        Some(l) => match read(l, text) {
            Ok(c) => Ok(found(c, graph)),
            Err(e) => Err(e),
        },
    }
}

/// Whether calls are asked for.
pub open spec fn wants_graph(o: Option<&ParseOptions>) -> bool {
    match o {
        Some(p) => p.show_call_graph,
        None => false,
    }
}

/// Parses a file and extracts definitions using tree-sitter queries. A file whose
/// extension has no language gives nothing, and so does one without definitions.
pub fn parse_file(
    file_path: &str,
    file_content: &str,
    language_parsers: &LanguageParserMap,
    options: Option<&ParseOptions>,
) -> (r: Result<Option<Vec<ParsedDefinition>>, LanguageParserError>)
    ensures
        ({
            let p = parse_outcome(
                file_path@,
                file_content@,
                language_parsers@,
                wants_graph(options),
            );
            &&& r matches Ok(Some(v)) ==> p == Ok::<Option<Seq<Definition>>, Failure>(
                Some(definition_values(v@)),
            )
            &&& r matches Ok(None) ==> p == Ok::<Option<Seq<Definition>>, Failure>(None)
            &&& r matches Err(e) ==> p == Err::<Option<Seq<Definition>>, Failure>(e@)
        }),
{
    let graph = match options {
        Some(o) => o.show_call_graph,
        None => false,
    };
    let ext = parser::get_extension(file_path);
    match language_parsers.get(ext.as_str()) {
        None => Ok(None),
        Some(entry) => match read_code(entry, file_content) {
            Err(e) => Err(e),
            Ok(None) => Ok(None),
            Ok(Some(c)) => {
                let v = read_definitions(&c, file_content, graph);
                assert(definition_values(v@).len() == v@.len());
                if v.len() > 0 {
                    Ok(Some(v))
                } else {
                    Ok(None)
                }
            },
        },
    }
}

// ---------------------------------------------------------------------------
// Skeletons
// ---------------------------------------------------------------------------

/// The lines of a skeleton that follow the line of a definition: its size and its calls.
pub open spec fn details(d: Definition) -> Seq<char> {
    (match d.line_count {
        Some(n) => "│"@ + d.indentation + "    # Lines: "@ + text::decimal(n as nat) + "\n"@,
        None => Seq::empty(),
    }) + (match d.calls {
        Some(v) => "│"@ + d.indentation + "    # Calls: ["@ + text::joined(
            text::ordered(v),
            ", "@,
        ) + "]\n"@,
        None => Seq::empty(),
    })
}

/// The body of a skeleton and the last line that it shows, or -1: each definition in its
/// line as it is shown, with a rule where lines are left out.
pub open spec fn skeleton_body(
    v: Seq<Definition>,
    shown: Seq<Seq<char>>,
    graph: bool,
) -> (Seq<char>, int)
    decreases v.len(),
{
    if v.len() == 0 {
        (Seq::empty(), -1)
    } else {
        let (t, last) = skeleton_body(v.drop_last(), shown, graph);
        let d = v.last();
        let rule = if last != -1 && d.line > last + 1 {
            "|----\n"@
        } else {
            Seq::empty()
        };
        if d.line > last {
            (
                t + rule + "│"@ + shown[d.line] + "\n"@ + (if graph {
                    details(d)
                } else {
                    Seq::empty()
                }),
                d.line,
            )
        } else {
            (t + rule, last)
        }
    }
}

/// The skeleton of definitions, between two rules.
pub open spec fn skeleton(v: Seq<Definition>, shown: Seq<Seq<char>>, graph: bool) -> Option<
    Seq<char>,
> {
    let t = skeleton_body(v, shown, graph).0;
    if t.len() > 0 {
        Some("|----\n"@ + t + "|----\n"@)
    } else {
        None
    }
}

fn push_details(t: &mut String, d: &ParsedDefinition)
    ensures
        final(t)@ == old(t)@ + details(d@),
{
    if let Some(n) = d.line_count {
        text::push_text(t, "│");
        text::push_text(t, d.indentation.as_str());
        text::push_text(t, "    # Lines: ");
        let digits = text::number_text(n as u64);
        text::push_text(t, digits.as_str());
        text::push_text(t, "\n");
    }
    if let Some(calls) = &d.calls {
        text::push_text(t, "│");
        text::push_text(t, d.indentation.as_str());
        text::push_text(t, "    # Calls: [");
        let sorted = text::order(calls);
        let list = text::join(&sorted, ", ");
        text::push_text(t, list.as_str());
        text::push_text(t, "]\n");
    }
    assert(t@ =~= old(t)@ + details(d@));
}

/// The skeleton of definitions; `shown` holds for each line of the file how it is shown.
pub fn make_skeleton(defs: &Vec<ParsedDefinition>, shown: &Vec<String>, graph: bool) -> (r: Option<
    String,
>)
    requires
        forall|i: int|
            0 <= i < defs@.len() ==> (#[trigger] defs@[i]).line_index < shown@.len(),
    ensures
        text::opt(r) == skeleton(definition_values(defs@), text::texts(shown@), graph),
{
    let ghost ds = definition_values(defs@);
    let ghost ts = text::texts(shown@);
    let mut t = String::new();
    let mut last: Option<usize> = None;
    let mut i: usize = 0;
    assert(ds.take(0) =~= Seq::empty());
    while i < defs.len()
        invariant
            i <= defs@.len(),
            ds == definition_values(defs@),
            ts == text::texts(shown@),
            forall|k: int|
                0 <= k < defs@.len() ==> (#[trigger] defs@[k]).line_index < shown@.len(),
            skeleton_body(ds.take(i as int), ts, graph).0 == t@,
            skeleton_body(ds.take(i as int), ts, graph).1 == (match last {
                Some(n) => n as int,
                None => -1,
            }),
        decreases defs@.len() - i,
    {
        assert(ds.take(i + 1).drop_last() =~= ds.take(i as int));
        assert(ds.take(i + 1).last() == defs@[i as int]@);
        let ghost before = t@;
        let d = &defs[i];
        let (beyond, gap) = match last {
            None => (true, false),
            Some(n) => (d.line_index > n, d.line_index > n && d.line_index - n > 1),
        };
        if gap {
            text::push_text(&mut t, "|----\n");
        }
        if beyond {
            assert(ts[d.line_index as int] == shown@[d.line_index as int]@);
            text::push_text(&mut t, "│");
            text::push_text(&mut t, shown[d.line_index].as_str());
            text::push_text(&mut t, "\n");
            if graph {
                push_details(&mut t, d);
            }
            last = Some(d.line_index);
        }
        assert(t@ =~= skeleton_body(ds.take(i + 1), ts, graph).0);
        i = i + 1;
    }
    assert(ds.take(i as int) =~= ds);
    if t.as_str().is_empty() {
        None
    } else {
        let mut r = "|----\n".to_owned();
        text::push_text(&mut r, t.as_str());
        text::push_text(&mut r, "|----\n");
        Some(r)
    }
}

/// Gets the file skeleton: the lines of its definitions as `shown` shows them, which holds
/// one text for each line of the file.
pub fn get_file_skeleton(
    absolute_path: &str,
    file_content: &str,
    language_parsers: &LanguageParserMap,
    shown: &Vec<String>,
    options: Option<&ParseOptions>,
) -> (r: Result<Option<String>, LanguageParserError>)
    requires
        shown@.len() == text::text_lines(file_content@).len(),
    ensures
        ({
            let p = parse_outcome(
                absolute_path@,
                file_content@,
                language_parsers@,
                wants_graph(options),
            );
            &&& r matches Ok(s) ==> p is Ok && text::opt(s) == (match p->Ok_0 {
                Some(v) => skeleton(v, text::texts(shown@), wants_graph(options)),
                None => None,
            })
            &&& r matches Err(e) ==> p == Err::<Option<Seq<Definition>>, Failure>(e@)
        }),
{
    let graph = match options {
        Some(o) => o.show_call_graph,
        None => false,
    };
    match parse_file(absolute_path, file_content, language_parsers, options) {
        Err(e) => Err(e),
        Ok(None) => Ok(None),
        Ok(Some(defs)) => {
            proof {
                let l = parser::under(
                    language_parsers@,
                    text::lowercased(parser::extension(absolute_path@)),
                )->0;
                let c = (read(l, file_content@)->Ok_0)->0;
                law_definitions_are_in_order(c, graph);
                assert forall|i: int| 0 <= i < defs@.len() implies (
                #[trigger] defs@[i]).line_index < shown@.len() by {
                    assert(definition_values(defs@)[i] == defs@[i]@);
                }
            }
            Ok(make_skeleton(&defs, shown, graph))
        },
    }
}

} // verus!
