//! Functions and symbols by their names: where they stand and how they are shown.

use crate::services::tree_sitter::code;
use crate::services::tree_sitter::code::{Code, Reading};
use crate::services::tree_sitter::definitions;
use crate::services::tree_sitter::parser;
use crate::services::tree_sitter::parser::{
    Failure, LanguageParserError, LanguageParserMap, LanguageValue,
};
use crate::services::tree_sitter::syntax;
use crate::services::tree_sitter::syntax::CaptureStep;
use crate::text;
use vstd::prelude::*;

verus! {

// ---------------------------------------------------------------------------
// Ranges
// ---------------------------------------------------------------------------

/// Extended range including wrapper types and preceding comments.
#[derive(Debug, Clone, Copy, PartialEq, Eq, Structural)]
pub struct ExtendedRange {
    pub start_index: usize,
    pub end_index: usize,
    pub start_line: usize,
}

/// The mathematical value of a range: the bytes from `from` to `to`, and the line of the
/// first.
pub struct Extent {
    pub from: int,
    pub to: int,
    pub line: int,
}

impl View for ExtendedRange {
    type V = Extent;

    open spec fn view(&self) -> Extent {
        Extent {
            from: self.start_index as int,
            to: self.end_index as int,
            line: self.start_line as int,
        }
    }
}

/// The kind of a node that wraps a definition.
pub open spec fn is_wrapper(k: Seq<char>) -> bool {
    k == "export_statement"@ || k == "export_declaration"@ || k == "ambient_declaration"@ || k
        == "decorated_definition"@ || k == "internal_module"@
}

/// The kind of a node that belongs to what follows it.
pub open spec fn is_prefix(k: Seq<char>) -> bool {
    k == "comment"@ || k == "decorator"@ || k == "attribute"@ || text::has(k, "comment"@)
}

/// The outermost of the wrappers directly around a node, or the node itself.
pub open spec fn wrapped(r: Reading, n: int) -> int
    decreases n,
{
    match r.nodes[n].parent {
        Some(p) => if 0 <= p < n && is_wrapper(r.nodes[p].kind) {
            wrapped(r, p)
        } else {
            n
        },
        None => n,
    }
}

/// The first of the comments, decorators and attributes directly before a node, or the
/// node itself.
pub open spec fn preceded(r: Reading, n: int) -> int
    decreases n,
{
    match r.nodes[n].previous {
        Some(p) => if 0 <= p < n && is_prefix(r.nodes[p].kind) {
            preceded(r, p)
        } else {
            n
        },
        None => n,
    }
}

/// The extended range of a node.
pub open spec fn extended(r: Reading, n: int) -> Extent {
    let w = wrapped(r, n);
    let f = preceded(r, w);
    Extent { from: r.nodes[f].start_byte, to: r.nodes[w].end_byte, line: r.nodes[f].start_row }
}

fn wrapper_kind(k: &str) -> (r: bool)
    ensures
        r == is_wrapper(k@),
{
    text::same(k, "export_statement") || text::same(k, "export_declaration") || text::same(
        k,
        "ambient_declaration",
    ) || text::same(k, "decorated_definition") || text::same(k, "internal_module")
}

fn prefix_kind(k: &str) -> (r: bool)
    ensures
        r == is_prefix(k@),
{
    text::same(k, "comment") || text::same(k, "decorator") || text::same(k, "attribute")
        || text::contains(k, "comment")
}

proof fn lemma_wrapped(r: Reading, n: int)
    requires
        r.sound(),
        0 <= n < r.nodes.len(),
    ensures
        0 <= wrapped(r, n) <= n,
    decreases n,
{
    if let Some(p) = r.nodes[n].parent {
        if 0 <= p < n && is_wrapper(r.nodes[p].kind) {
            lemma_wrapped(r, p);
        }
    }
}

proof fn lemma_preceded(r: Reading, n: int)
    requires
        r.sound(),
        0 <= n < r.nodes.len(),
    ensures
        0 <= preceded(r, n) <= n,
        r.nodes[preceded(r, n)].start_byte <= r.nodes[n].start_byte,
    decreases n,
{
    assert(code::node_fits(r, n));
    if let Some(p) = r.nodes[n].previous {
        if 0 <= p < n && is_prefix(r.nodes[p].kind) {
            lemma_preceded(r, p);
        }
    }
}

/// The extended range of a node is a part of the text. It starts no later than the
/// outermost wrapper of the node and ends with it.
pub proof fn law_extended_range_is_in_text(r: Reading, n: int)
    requires
        r.sound(),
        0 <= n < r.nodes.len(),
    ensures
        code::slice(r.text, extended(r, n).from, extended(r, n).to) is Some,
        extended(r, n).from <= r.nodes[wrapped(r, n)].start_byte,
        extended(r, n).to == r.nodes[wrapped(r, n)].end_byte,
{
    let w = wrapped(r, n);
    lemma_wrapped(r, n);
    lemma_preceded(r, w);
    let f = preceded(r, w);
    assert(code::node_fits(r, w));
    assert(code::node_fits(r, f));
    code::lemma_slice(r.text, r.nodes[f].start_byte, r.nodes[w].end_byte);
}

/// Gets the extended range of a node, including wrapper types and preceding comments.
pub fn get_extended_range(c: &Code, target: usize) -> (r: ExtendedRange)
    requires
        c.wf(),
        target < c.nodes@.len(),
    ensures
        r@ == extended(c@, target as int),
{
    let mut n: usize = target;
    let mut going = true;
    while going
        invariant
            c.wf(),
            n < c.nodes@.len(),
            wrapped(c@, n as int) == wrapped(c@, target as int),
            !going ==> wrapped(c@, n as int) == n,
        decreases n,
            (if going {
                1int
            } else {
                0int
            }),
    {
        assert(c@.nodes[n as int] == c.nodes@[n as int]@);
        assert(code::node_fits(c@, n as int));
        match c.nodes[n].parent {
            Some(p) => {
                assert(c@.nodes[p as int] == c.nodes@[p as int]@);
                if wrapper_kind(c.nodes[p].kind.as_str()) {
                    n = p;
                } else {
                    going = false;
                }
            },
            None => {
                going = false;
            },
        }
    }
    let outer: usize = n;
    assert(c@.nodes[outer as int] == c.nodes@[outer as int]@);
    let mut first: usize = outer;
    let mut looking = true;
    while looking
        invariant
            c.wf(),
            first < c.nodes@.len(),
            preceded(c@, first as int) == preceded(c@, outer as int),
            !looking ==> preceded(c@, first as int) == first,
        decreases first,
            (if looking {
                1int
            } else {
                0int
            }),
    {
        assert(c@.nodes[first as int] == c.nodes@[first as int]@);
        assert(code::node_fits(c@, first as int));
        match c.nodes[first].previous {
            Some(p) => {
                assert(c@.nodes[p as int] == c.nodes@[p as int]@);
                if prefix_kind(c.nodes[p].kind.as_str()) {
                    first = p;
                } else {
                    looking = false;
                }
            },
            None => {
                looking = false;
            },
        }
    }
    assert(c@.nodes[first as int] == c.nodes@[first as int]@);
    ExtendedRange {
        start_index: c.nodes[first].start_byte,
        end_index: c.nodes[outer].end_byte,
        start_line: c.nodes[first].start_row,
    }
}

// ---------------------------------------------------------------------------
// Full names
// ---------------------------------------------------------------------------

/// A capture that ties its node to its match.
pub open spec fn ties(name: Seq<char>) -> bool {
    text::begins(name, "name."@) || text::begins(name, "definition."@)
}

/// The match that the last of the first `k` steps ties a node to.
pub open spec fn match_of(r: Reading, n: int, k: int) -> Option<u32>
    decreases k,
{
    if k <= 0 {
        None
    } else if ties(r.name(k - 1)) && r.node(k - 1) == n {
        Some(r.steps[k - 1].match_id)
    } else {
        match_of(r, n, k - 1)
    }
}

/// The name that the first of the first `k` steps gives a match.
pub open spec fn match_name(r: Reading, id: u32, k: int) -> Option<Seq<char>>
    decreases k,
{
    if k <= 0 {
        None
    } else {
        match match_name(r, id, k - 1) {
            Some(t) => Some(t),
            None => if text::begins(r.name(k - 1), "name."@) && r.steps[k - 1].match_id == id {
                Some(r.node_text(r.node(k - 1)))
            } else {
                None
            },
        }
    }
}

/// The match that a node belongs to.
pub open spec fn own_match(r: Reading, n: int) -> Option<u32> {
    match_of(r, n, r.steps.len() as int)
}

/// A name with the names of the definitions around a node before it. Each match counts
/// once, and those in `seen` do not count.
pub open spec fn qualified(r: Reading, n: int, seen: Seq<u32>, name: Seq<char>) -> Seq<char>
    decreases n,
{
    match r.nodes[n].parent {
        Some(p) => if 0 <= p < n {
            match own_match(r, p) {
                Some(id) => if seen.contains(id) {
                    qualified(r, p, seen, name)
                } else {
                    match match_name(r, id, r.steps.len() as int) {
                        Some(outer) => qualified(r, p, seen.push(id), outer + "."@ + name),
                        None => qualified(r, p, seen.push(id), name),
                    }
                },
                None => qualified(r, p, seen, name),
            }
        } else {
            name
        },
        None => name,
    }
}

/// The full name of a definition with a name.
pub open spec fn full_name(r: Reading, n: int, name: Seq<char>) -> Seq<char> {
    match own_match(r, n) {
        Some(id) => qualified(r, n, seq![id], name),
        None => qualified(r, n, Seq::empty(), name),
    }
}

/// A name with dots between its parts.
pub open spec fn dotted(name: Seq<char>) -> Seq<char> {
    text::replaced(name, "::"@, "."@)
}

/// A full name answers to a requested one: it is the same, or ends with it after a dot.
pub open spec fn answers(full: Seq<char>, asked: Seq<char>) -> bool {
    dotted(full) == dotted(asked) || text::ends(dotted(full), "."@ + dotted(asked))
}

/// What is known of the matches of a code.
pub struct Matches {
    /// The match of each node.
    pub of_node: Vec<Option<u32>>,
    /// The names of matches, as far as they have one.
    pub names: Vec<(u32, String)>,
}

/// The name of a match in a list, by its last entry.
pub open spec fn name_in(v: Seq<(u32, String)>, id: u32) -> Option<Seq<char>>
    decreases v.len(),
{
    if v.len() == 0 {
        None
    } else if v.last().0 == id {
        Some(v.last().1@)
    } else {
        name_in(v.drop_last(), id)
    }
}

impl Matches {
    /// This is what the first `k` steps say.
    pub open spec fn fits(&self, r: Reading, k: int) -> bool {
        &&& self.of_node@.len() == r.nodes.len()
        &&& forall|n: int|
            0 <= n < r.nodes.len() ==> #[trigger] self.of_node@[n] == match_of(r, n, k)
        &&& forall|id: u32| #[trigger] name_in(self.names@, id) == match_name(r, id, k)
    }

    fn name(&self, id: u32) -> (r: Option<String>)
        ensures
            text::opt(r) == name_in(self.names@, id),
    {
        let mut n: usize = self.names.len();
        assert(self.names@.take(n as int) =~= self.names@);
        while n > 0
            invariant
                n <= self.names@.len(),
                name_in(self.names@.take(n as int), id) == name_in(self.names@, id),
            decreases n,
        {
            assert(self.names@.take(n as int).drop_last() =~= self.names@.take(n - 1));
            assert(self.names@.take(n as int).last() == self.names@[n - 1]);
            if self.names[n - 1].0 == id {
                return Some(self.names[n - 1].1.clone());
            }
            n = n - 1;
        }
        None
    }
}

/// What is known of the matches of a code.
pub fn read_matches(c: &Code) -> (m: Matches)
    requires
        c.wf(),
    ensures
        m.fits(c@, c.steps@.len() as int),
{
    let mut of_node: Vec<Option<u32>> = Vec::new();
    let total: usize = c.nodes.len();
    let mut j: usize = 0;
    while j < total
        invariant
            j <= total,
            of_node@.len() == j,
            forall|n: int| 0 <= n < j ==> #[trigger] of_node@[n] is None,
        decreases total - j,
    {
        of_node.push(None);
        j = j + 1;
    }
    let mut m = Matches { of_node, names: Vec::new() };
    let mut k: usize = 0;
    while k < c.steps.len()
        invariant
            c.wf(),
            k <= c.steps@.len(),
            m.fits(c@, k as int),
        decreases c.steps@.len() - k,
    {
        let name = c.name(k);
        let node: usize = c.node(k);
        let id: u32 = c.steps[k].match_id;
        assert(c@.steps[k as int] == c.steps@[k as int]@);
        let ghost before = m;
        let named = text::starts_with(name, "name.");
        if named || text::starts_with(name, "definition.") {
            m.of_node[node] = Some(id);
        }
        assert(name_in(before.names@, id) == match_name(c@, id, k as int));
        if named && m.name(id).is_none() {
            let t = c.node_text(node);
            m.names.push((id, t));
            assert(m.names@.drop_last() =~= before.names@);
        }
        assert forall|n: int| 0 <= n < c@.nodes.len() implies #[trigger] m.of_node@[n] == match_of(
            c@,
            n,
            k + 1,
        ) by {
            assert(before.of_node@[n] == match_of(c@, n, k as int));
        }
        assert forall|x: u32| #[trigger] name_in(m.names@, x) == match_name(c@, x, k + 1) by {
            assert(name_in(before.names@, x) == match_name(c@, x, k as int));
        }
        k = k + 1;
    }
    m
}

fn has_id(v: &Vec<u32>, id: u32) -> (r: bool)
    ensures
        r == v@.contains(id),
{
    let mut i: usize = 0;
    while i < v.len()
        invariant
            i <= v@.len(),
            forall|j: int| 0 <= j < i ==> #[trigger] v@[j] != id,
        decreases v@.len() - i,
    {
        if v[i] == id {
            return true;
        }
        i = i + 1;
    }
    false
}

/// The full name of a definition with a name.
pub fn make_full_name(c: &Code, m: &Matches, start: usize, name: &str) -> (r: String)
    requires
        c.wf(),
        m.fits(c@, c.steps@.len() as int),
        start < c.nodes@.len(),
    ensures
        r@ == full_name(c@, start as int, name@),
{
    let mut seen: Vec<u32> = Vec::new();
    assert(m.of_node@[start as int] == own_match(c@, start as int));
    if let Some(id) = m.of_node[start] {
        seen.push(id);
        assert(seen@ =~= seq![id]);
    } else {
        assert(seen@ =~= Seq::empty());
    }
    let mut full = name.to_owned();
    let mut n: usize = start;
    let mut going = true;
    while going
        invariant
            c.wf(),
            m.fits(c@, c.steps@.len() as int),
            n < c.nodes@.len(),
            qualified(c@, n as int, seen@, full@) == full_name(c@, start as int, name@),
            !going ==> full@ == full_name(c@, start as int, name@),
        decreases n,
            (if going {
                1int
            } else {
                0int
            }),
    {
        assert(c@.nodes[n as int] == c.nodes@[n as int]@);
        assert(code::node_fits(c@, n as int));
        match c.nodes[n].parent {
            None => {
                going = false;
            },
            Some(p) => {
                assert(m.of_node@[p as int] == own_match(c@, p as int));
                if let Some(id) = m.of_node[p] {
                    if !has_id(&seen, id) {
                        assert(name_in(m.names@, id) == match_name(
                            c@,
                            id,
                            c.steps@.len() as int,
                        ));
                        if let Some(outer) = m.name(id) {
                            let mut longer = outer;
                            text::push_text(&mut longer, ".");
                            text::push_text(&mut longer, full.as_str());
                            full = longer;
                        }
                        seen.push(id);
                    }
                }
                n = p;
            },
        }
    }
    full
}

fn make_dotted(name: &str) -> (r: String)
    ensures
        r@ == dotted(name@),
{
    proof {
        reveal_strlit("::");
    }
    text::replace(name, "::", ".")
}

/// Whether a full name answers to a requested one.
pub fn name_answers(full: &str, asked: &str) -> (r: bool)
    ensures
        r == answers(full@, asked@),
{
    let f = make_dotted(full);
    let a = make_dotted(asked);
    if text::same(f.as_str(), a.as_str()) {
        return true;
    }
    let mut tail = ".".to_owned();
    text::push_text(&mut tail, a.as_str());
    text::ends_with(f.as_str(), tail.as_str())
}

/// A name answers to itself, and so does one with more definitions around it.
pub proof fn law_longer_names_answer(outer: Seq<char>, name: Seq<char>)
    ensures
        answers(name, name),
        answers(outer + "."@ + name, name),
{
    let f = dotted(outer + "."@ + name);
    let t = "."@ + dotted(name);
    lemma_dotted(outer, name);
    assert(f =~= dotted(outer) + t);
    assert(f.subrange(f.len() - t.len(), f.len() as int) =~= t);
}

/// The full name of a definition answers to its own name, whatever stands around it.
pub proof fn law_full_name_answers(r: Reading, n: int, name: Seq<char>)
    ensures
        answers(full_name(r, n, name), name),
{
    let seen = match own_match(r, n) {
        Some(id) => seq![id],
        None => Seq::empty(),
    };
    lemma_qualified(r, n, seen, name, name);
    let f = full_name(r, n, name);
    if f == name {
        law_longer_names_answer(Seq::empty(), name);
    } else {
        let outer = choose|outer: Seq<char>| f == #[trigger] (outer + "."@) + name;
        law_longer_names_answer(outer, name);
    }
}

proof fn lemma_qualified(r: Reading, n: int, seen: Seq<u32>, so_far: Seq<char>, name: Seq<char>)
    requires
        so_far == name || exists|outer: Seq<char>| so_far == #[trigger] (outer + "."@) + name,
    ensures
        ({
            let f = qualified(r, n, seen, so_far);
            f == name || exists|outer: Seq<char>| f == #[trigger] (outer + "."@) + name
        }),
    decreases n,
{
    if let Some(p) = r.nodes[n].parent {
        if 0 <= p < n {
            match own_match(r, p) {
                Some(id) => {
                    if seen.contains(id) {
                        lemma_qualified(r, p, seen, so_far, name);
                    } else {
                        match match_name(r, id, r.steps.len() as int) {
                            Some(o) => {
                                let longer = o + "."@ + so_far;
                                if so_far == name {
                                    assert(longer == (o + "."@) + name);
                                } else {
                                    let outer = choose|outer: Seq<char>|
                                        so_far == #[trigger] (outer + "."@) + name;
                                    let whole = o + "."@ + outer;
                                    assert(longer =~= (whole + "."@) + name);
                                }
                                lemma_qualified(r, p, seen.push(id), longer, name);
                            },
                            None => {
                                lemma_qualified(r, p, seen.push(id), so_far, name);
                            },
                        }
                    }
                },
                None => {
                    lemma_qualified(r, p, seen, so_far, name);
                },
            }
        }
    }
}

/// A dot keeps what stands on its two sides apart.
proof fn lemma_dotted(a: Seq<char>, b: Seq<char>)
    ensures
        dotted(a + "."@ + b) == dotted(a) + "."@ + dotted(b),
{
    reveal_strlit("::");
    reveal_strlit(".");
    let s = a + "."@ + b;
    let n = a.len() as int;
    lemma_replaced_front(a, b, 0);
    assert(s[n] == '.');
    assert(!text::matches_at(s, "::"@, n)) by {
        if text::matches_at(s, "::"@, n) {
            assert(s.subrange(n, n + 2)[0] == s[n]);
        }
    }
    assert(text::replaced_from(s, "::"@, "."@, n) == seq!['.'] + text::replaced_from(
        s,
        "::"@,
        "."@,
        n + 1,
    ));
    assert(s =~= (a + "."@) + b);
    lemma_replaced_back(a + "."@, b, n + 1);
    assert("."@ =~= seq!['.']);
    assert(dotted(s) =~= dotted(a) + "."@ + dotted(b));
}

proof fn lemma_replaced_front(a: Seq<char>, b: Seq<char>, from: int)
    requires
        0 <= from <= a.len(),
    ensures
        text::replaced_from(a + "."@ + b, "::"@, "."@, from) == text::replaced_from(
            a,
            "::"@,
            "."@,
            from,
        ) + text::replaced_from(a + "."@ + b, "::"@, "."@, a.len() as int),
    decreases a.len() - from,
{
    reveal_strlit("::");
    reveal_strlit(".");
    let s = a + "."@ + b;
    let whole = text::replaced_from(s, "::"@, "."@, a.len() as int);
    if from == a.len() {
        assert(text::replaced_from(a, "::"@, "."@, from) + whole =~= whole);
    } else {
        assert(s[a.len() as int] == '.');
        assert(s[from] == a[from]);
        if text::matches_at(s, "::"@, from) {
            assert(s.subrange(from, from + 2)[1] == s[from + 1]);
            assert(from + 1 < a.len());
            assert(a.subrange(from, from + 2) =~= s.subrange(from, from + 2));
            assert(text::matches_at(a, "::"@, from));
            lemma_replaced_front(a, b, from + 2);
            assert("."@ + (text::replaced_from(a, "::"@, "."@, from + 2) + whole) =~= "."@
                + text::replaced_from(a, "::"@, "."@, from + 2) + whole);
        } else {
            assert(!text::matches_at(a, "::"@, from)) by {
                if text::matches_at(a, "::"@, from) {
                    assert(a.subrange(from, from + 2) =~= s.subrange(from, from + 2));
                }
            }
            lemma_replaced_front(a, b, from + 1);
            assert(seq![s[from]] + (text::replaced_from(a, "::"@, "."@, from + 1) + whole)
                =~= seq![a[from]] + text::replaced_from(a, "::"@, "."@, from + 1) + whole);
        }
    }
}

proof fn lemma_replaced_back(a: Seq<char>, b: Seq<char>, from: int)
    requires
        a.len() <= from <= a.len() + b.len(),
    ensures
        text::replaced_from(a + b, "::"@, "."@, from) == text::replaced_from(
            b,
            "::"@,
            "."@,
            from - a.len(),
        ),
    decreases a.len() + b.len() - from,
{
    reveal_strlit("::");
    let s = a + b;
    let k = from - a.len();
    if from < s.len() {
        assert(s[from] == b[k]);
        if from + 2 <= s.len() {
            assert(s.subrange(from, from + 2) =~= b.subrange(k, k + 2));
        }
        assert(text::matches_at(s, "::"@, from) == text::matches_at(b, "::"@, k));
        if text::matches_at(s, "::"@, from) {
            lemma_replaced_back(a, b, from + 2);
        } else {
            lemma_replaced_back(a, b, from + 1);
        }
    }
}

// ---------------------------------------------------------------------------
// Captures of a match
// ---------------------------------------------------------------------------

/// How the captures of a match are told apart: by a name anywhere in theirs, or at its
/// front.
pub enum Telling {
    Anywhere,
    Front,
}

/// A capture of the name of a definition.
pub open spec fn is_name_capture(name: Seq<char>, t: Telling) -> bool {
    match t {
        Telling::Anywhere => text::has(name, "name.definition"@),
        Telling::Front => text::begins(name, "name.definition"@),
    }
}

/// A capture of something else than a name.
pub open spec fn is_other_capture(name: Seq<char>, t: Telling) -> bool {
    match t {
        Telling::Anywhere => !text::has(name, "name"@),
        Telling::Front => !text::begins(name, "name."@),
    }
}

/// The first capture that names a definition, from position `i` on.
pub open spec fn first_name(v: Seq<(Seq<char>, int)>, t: Telling, i: int) -> Option<int>
    decreases v.len() - i,
{
    if i >= v.len() || i < 0 {
        None
    } else if is_name_capture(v[i].0, t) {
        Some(i)
    } else {
        first_name(v, t, i + 1)
    }
}

/// The first capture of a whole definition, from position `i` on.
pub open spec fn first_definition(v: Seq<(Seq<char>, int)>, i: int) -> Option<int>
    decreases v.len() - i,
{
    if i >= v.len() || i < 0 {
        None
    } else if text::begins(v[i].0, "definition."@) {
        Some(i)
    } else {
        first_definition(v, i + 1)
    }
}

/// The first capture of something else than a name, from position `i` on.
pub open spec fn first_other(v: Seq<(Seq<char>, int)>, t: Telling, i: int) -> Option<int>
    decreases v.len() - i,
{
    if i >= v.len() || i < 0 {
        None
    } else if is_other_capture(v[i].0, t) {
        Some(i)
    } else {
        first_other(v, t, i + 1)
    }
}

/// The captures of the name and of the whole of what a match defines.
pub open spec fn defined_by(v: Seq<(Seq<char>, int)>, t: Telling) -> Option<(int, int)> {
    let whole = match first_definition(v, 0) {
        Some(d) => Some(d),
        None => first_other(v, t, 0),
    };
    match (first_name(v, t, 0), whole) {
        (Some(n), Some(d)) => Some((n, d)),
        _ => None,
    }
}

fn find_definition(s: &CaptureStep, t: &Telling) -> (r: Option<(usize, usize)>)
    ensures
        r matches Some((n, d)) ==> n < s.captures@.len() && d < s.captures@.len() && defined_by(
            s@.captures,
            *t,
        ) == Some((n as int, d as int)),
        r is None ==> defined_by(s@.captures, *t) is None,
{
    let ghost v = s@.captures;
    let total: usize = s.captures.len();
    let mut name: Option<usize> = None;
    let mut whole: Option<usize> = None;
    let mut other: Option<usize> = None;
    let mut i: usize = total;
    while i > 0
        invariant
            i <= total,
            total == s.captures@.len(),
            v == s@.captures,
            syntax::opt_position(name) == first_name(v, *t, i as int),
            syntax::opt_position(whole) == first_definition(v, i as int),
            syntax::opt_position(other) == first_other(v, *t, i as int),
            name matches Some(n) ==> n < total,
            whole matches Some(n) ==> n < total,
            other matches Some(n) ==> n < total,
        decreases i,
    {
        i = i - 1;
        let c = s.captures[i].name.as_str();
        assert(v[i as int].0 == c@);
        let (is_name, is_other) = match t {
            Telling::Anywhere => (text::contains(c, "name.definition"), !text::contains(c, "name")),
            Telling::Front => (
                text::starts_with(c, "name.definition"),
                !text::starts_with(c, "name."),
            ),
        };
        if is_name {
            name = Some(i);
        }
        if text::starts_with(c, "definition.") {
            whole = Some(i);
        }
        if is_other {
            other = Some(i);
        }
    }
    let d: Option<usize> = match whole {
        Some(w) => Some(w),
        None => other,
    };
    match (name, d) {
        (Some(n), Some(w)) => Some((n, w)),
        _ => None,
    }
}

/// The nodes of the name and of the whole of what a step's match defines.
pub open spec fn defined_nodes(r: Reading, i: int, t: Telling) -> Option<(int, int)> {
    match defined_by(r.steps[i].captures, t) {
        Some((n, d)) => Some((r.steps[i].captures[n].1, r.steps[i].captures[d].1)),
        None => None,
    }
}

/// The nodes of the name and of the whole of what a step's match defines, and which
/// capture holds the whole.
pub fn find_defined_nodes(c: &Code, i: usize, t: &Telling) -> (r: Option<(usize, usize, usize)>)
    requires
        c.wf(),
        i < c.steps@.len(),
    ensures
        r matches Some((n, d, k)) ==> n < c.nodes@.len() && d < c.nodes@.len() && defined_nodes(
            c@,
            i as int,
            *t,
        ) == Some((n as int, d as int)) && k < c.steps@[i as int].captures@.len() && (defined_by(
            c@.steps[i as int].captures,
            *t,
        )->0).1 == k,
        r is None ==> defined_nodes(c@, i as int, *t) is None,
{
    let s = &c.steps[i];
    assert(c@.steps[i as int] == s@);
    assert(code::step_fits(c@, i as int));
    match find_definition(s, t) {
        None => None,
        Some((n, d)) => {
            assert(s@.captures[n as int].1 == s.captures@[n as int].node);
            assert(s@.captures[d as int].1 == s.captures@[d as int].node);
            Some((s.captures[n].node, s.captures[d].node, d))
        },
    }
}

// ---------------------------------------------------------------------------
// One symbol
// ---------------------------------------------------------------------------

/// A symbol range for replacement.
#[derive(Debug, Clone)]
pub struct SymbolRange {
    pub start_index: usize,
    pub end_index: usize,
    pub start_line: usize,
    pub name_text: String,
}

/// A function and a method count as the same.
pub open spec fn is_callable(t: Seq<char>) -> bool {
    t == "function"@ || t == "method"@
}

/// The types are the same or count as the same, or none is asked for.
pub open spec fn compatible(found: Seq<char>, asked: Option<Seq<char>>) -> bool {
    match asked {
        None => true,
        Some(a) => found == a || (is_callable(found) && is_callable(a)),
    }
}

/// An optional text.
pub open spec fn opt_str(t: Option<&str>) -> Option<Seq<char>> {
    match t {
        Some(s) => Some(s@),
        None => None,
    }
}

/// Checks if two type names are compatible.
pub fn are_types_compatible(def_type: &str, req_type: Option<&str>) -> (r: bool)
    ensures
        r == compatible(def_type@, opt_str(req_type)),
{
    match req_type {
        None => true,
        Some(a) => text::same(def_type, a) || ((text::same(def_type, "function") || text::same(
            def_type,
            "method",
        )) && (text::same(a, "function") || text::same(a, "method"))),
    }
}

/// A step defines what is asked for.
pub open spec fn defines(r: Reading, i: int, symbol: Seq<char>, kind: Option<Seq<char>>) -> bool {
    match defined_nodes(r, i, Telling::Front) {
        None => false,
        Some((n, d)) => {
            let k = (defined_by(r.steps[i].captures, Telling::Front)->0).1;
            &&& answers(full_name(r, d, r.node_text(n)), symbol)
            &&& compatible(parser::after_last(r.steps[i].captures[k].0, '.'), kind)
        },
    }
}

/// The first step from `i` on that defines what is asked for.
pub open spec fn first_defining(
    r: Reading,
    symbol: Seq<char>,
    kind: Option<Seq<char>>,
    i: int,
) -> Option<int>
    decreases r.steps.len() - i,
{
    if i < 0 || i >= r.steps.len() {
        None
    } else if defines(r, i, symbol, kind) {
        Some(i)
    } else {
        first_defining(r, symbol, kind, i + 1)
    }
}

/// The range of a symbol and its own name, as the first step that defines it gives them.
pub open spec fn symbol_range(
    r: Reading,
    symbol: Seq<char>,
    kind: Option<Seq<char>>,
) -> Option<(Extent, Seq<char>)> {
    match first_defining(r, symbol, kind, 0) {
        None => None,
        Some(i) => {
            let (n, d) = defined_nodes(r, i, Telling::Front)->0;
            Some((extended(r, d), r.node_text(n)))
        },
    }
}

/// The value of an optional symbol range.
pub open spec fn range_value(s: Option<SymbolRange>) -> Option<(Extent, Seq<char>)> {
    match s {
        Some(x) => Some(
            (
                Extent {
                    from: x.start_index as int,
                    to: x.end_index as int,
                    line: x.start_line as int,
                },
                x.name_text@,
            ),
        ),
        None => None,
    }
}

/// Finds the range of a symbol in a file that has been read.
pub fn find_symbol_range(c: &Code, symbol: &str, symbol_type: Option<&str>) -> (r: Option<
    SymbolRange,
>)
    requires
        c.wf(),
    ensures
        range_value(r) == symbol_range(c@, symbol@, opt_str(symbol_type)),
{
    let m = read_matches(c);
    let t = Telling::Front;
    let mut i: usize = 0;
    while i < c.steps.len()
        invariant
            c.wf(),
            m.fits(c@, c.steps@.len() as int),
            t == Telling::Front,
            i <= c.steps@.len(),
            first_defining(c@, symbol@, opt_str(symbol_type), i as int) == first_defining(
                c@,
                symbol@,
                opt_str(symbol_type),
                0,
            ),
        decreases c.steps@.len() - i,
    {
        if let Some((n, d, k)) = find_defined_nodes(c, i, &t) {
            let name_text = c.node_text(n);
            let full = make_full_name(c, &m, d, name_text.as_str());
            let s = &c.steps[i];
            assert(c@.steps[i as int] == s@);
            assert(s@.captures[k as int].0 == s.captures@[k as int].name@);
            let kind = parser::last_part(s.captures[k].name.as_str(), '.');
            if name_answers(full.as_str(), symbol) && are_types_compatible(
                kind.as_str(),
                symbol_type,
            ) {
                let range = get_extended_range(c, d);
                return Some(
                    SymbolRange {
                        start_index: range.start_index,
                        end_index: range.end_index,
                        start_line: range.start_line,
                        name_text,
                    },
                );
            }
        }
        i = i + 1;
    }
    None
}

/// What asking for the range of a symbol gives.
pub open spec fn range_outcome(
    path: Seq<char>,
    symbol: Seq<char>,
    kind: Option<Seq<char>>,
    text: Seq<char>,
    parsers: Seq<(Seq<char>, LanguageValue)>,
) -> Result<Option<(Extent, Seq<char>)>, Failure> {
    match parser::under(parsers, text::lowercased(parser::extension(path))) {
        None => Ok(None),
        Some(l) => match definitions::read(l, text) {
            Ok(Some(c)) => Ok(symbol_range(c, symbol, kind)),
            Ok(None) => Ok(None),
            Err(e) => Err(e),
        },
    }
}

/// Gets the range of a specific symbol for replacement.
pub fn get_symbol_range(
    absolute_path: &str,
    symbol: &str,
    symbol_type: Option<&str>,
    file_content: &str,
    language_parsers: &LanguageParserMap,
) -> (r: Result<Option<SymbolRange>, LanguageParserError>)
    ensures
        ({
            let p = range_outcome(
                absolute_path@,
                symbol@,
                opt_str(symbol_type),
                file_content@,
                language_parsers@,
            );
            &&& r matches Ok(s) ==> p == Ok::<Option<(Extent, Seq<char>)>, Failure>(
                range_value(s),
            )
            &&& r matches Err(e) ==> p == Err::<Option<(Extent, Seq<char>)>, Failure>(e@)
        }),
{
    let ext = parser::get_extension(absolute_path);
    match language_parsers.get(ext.as_str()) {
        None => Ok(None),
        Some(entry) => match definitions::read_code(entry, file_content) {
            Err(e) => Err(e),
            Ok(None) => Ok(None),
            Ok(Some(c)) => Ok(find_symbol_range(&c, symbol, symbol_type)),
        },
    }
}

/// The range that is handed out for a symbol is a part of the text.
pub proof fn law_symbol_range_is_in_text(r: Reading, symbol: Seq<char>, kind: Option<Seq<char>>)
    requires
        r.sound(),
        symbol_range(r, symbol, kind) is Some,
    ensures
        ({
            let e = (symbol_range(r, symbol, kind)->0).0;
            code::slice(r.text, e.from, e.to) is Some
        }),
{
    lemma_first_defining(r, symbol, kind, 0);
    let i = first_defining(r, symbol, kind, 0)->0;
    let (n, d) = defined_nodes(r, i, Telling::Front)->0;
    lemma_defined_nodes(r, i, Telling::Front);
    law_extended_range_is_in_text(r, d);
}

proof fn lemma_first_defining(r: Reading, symbol: Seq<char>, kind: Option<Seq<char>>, i: int)
    requires
        0 <= i,
    ensures
        first_defining(r, symbol, kind, i) matches Some(k) ==> i <= k < r.steps.len() && defines(
            r,
            k,
            symbol,
            kind,
        ),
    decreases r.steps.len() - i,
{
    if i < r.steps.len() && !defines(r, i, symbol, kind) {
        lemma_first_defining(r, symbol, kind, i + 1);
    }
}

pub proof fn lemma_defined_nodes(r: Reading, i: int, t: Telling)
    requires
        r.sound(),
        0 <= i < r.steps.len(),
    ensures
        defined_nodes(r, i, t) matches Some((n, d)) ==> 0 <= n < r.nodes.len() && 0 <= d
            < r.nodes.len(),
{
    assert(code::step_fits(r, i));
    let v = r.steps[i].captures;
    lemma_firsts(v, t, 0);
}

proof fn lemma_firsts(v: Seq<(Seq<char>, int)>, t: Telling, i: int)
    requires
        0 <= i,
    ensures
        first_name(v, t, i) matches Some(k) ==> 0 <= k < v.len(),
        first_definition(v, i) matches Some(k) ==> 0 <= k < v.len(),
        first_other(v, t, i) matches Some(k) ==> 0 <= k < v.len(),
    decreases v.len() - i,
{
    if i < v.len() {
        lemma_firsts(v, t, i + 1);
    }
}

} // verus!
