//! The text of a file with its syntax tree and the captures of its query.

use crate::services::tree_sitter::syntax;
use crate::services::tree_sitter::syntax::{CaptureStep, SourceNode, Step, SyntaxNode};
use crate::text;
use vstd::prelude::*;

verus! {

// ---------------------------------------------------------------------------
// Byte positions
// ---------------------------------------------------------------------------

/// The number of characters before a byte position; nothing where the position is
/// inside a character or past the end.
pub open spec fn char_at(s: Seq<char>, byte: int) -> Option<int>
    decreases s.len(),
{
    if text::byte_len(s) == byte {
        Some(s.len() as int)
    } else if s.len() == 0 {
        None
    } else {
        char_at(s.drop_last(), byte)
    }
}

/// The text between two byte positions.
pub open spec fn slice(s: Seq<char>, from: int, to: int) -> Option<Seq<char>> {
    match (char_at(s, from), char_at(s, to)) {
        (Some(i), Some(j)) => if i <= j {
            Some(s.subrange(i, j))
        } else {
            None
        },
        _ => None,
    }
}

/// What `char_at` gives is a position with that many bytes before it.
proof fn lemma_char_at(s: Seq<char>, byte: int)
    ensures
        char_at(s, byte) matches Some(i) ==> 0 <= i <= s.len() && text::byte_len(s.take(i)) == byte,
    decreases s.len(),
{
    if text::byte_len(s) == byte {
        assert(s.take(s.len() as int) =~= s);
    } else if s.len() > 0 {
        lemma_char_at(s.drop_last(), byte);
        if let Some(i) = char_at(s.drop_last(), byte) {
            assert(s.drop_last().take(i) =~= s.take(i));
        }
    }
}

/// More characters take more bytes.
proof fn lemma_more_bytes(s: Seq<char>, i: int, j: int)
    requires
        0 <= i < j <= s.len(),
    ensures
        text::byte_len(s.take(i)) < text::byte_len(s.take(j)),
{
    text::lemma_byte_len_mono(s.take(j - 1), i);
    assert(s.take(j - 1).take(i) =~= s.take(i));
    assert(s.take(j).drop_last() =~= s.take(j - 1));
}

/// Every position is found by its bytes.
proof fn lemma_char_at_is(s: Seq<char>, i: int)
    requires
        0 <= i <= s.len(),
    ensures
        char_at(s, text::byte_len(s.take(i)) as int) == Some(i),
    decreases s.len(),
{
    if i == s.len() {
        assert(s.take(i) =~= s);
    } else {
        lemma_more_bytes(s, i, s.len() as int);
        assert(s.take(s.len() as int) =~= s);
        lemma_char_at_is(s.drop_last(), i);
        assert(s.drop_last().take(i) =~= s.take(i));
    }
}

/// Byte positions in order give a text.
pub proof fn lemma_slice(s: Seq<char>, from: int, to: int)
    requires
        char_at(s, from) is Some,
        char_at(s, to) is Some,
        from <= to,
    ensures
        slice(s, from, to) is Some,
{
    lemma_char_at(s, from);
    lemma_char_at(s, to);
    let i = char_at(s, from)->0;
    let j = char_at(s, to)->0;
    if j < i {
        lemma_more_bytes(s, j, i);
    }
}

/// A text that can be cut at byte positions.
pub struct Source {
    pub chars: Vec<char>,
    /// The number of characters before each byte position.
    pub starts: Vec<Option<usize>>,
}

impl Source {
    /// The table of byte positions fits the text.
    pub open spec fn wf(&self) -> bool {
        &&& self.starts@.len() == text::byte_len(self.chars@) + 1
        &&& forall|b: int|
            0 <= b < self.starts@.len() ==> syntax::opt_position(#[trigger] self.starts@[b])
                == char_at(self.chars@, b)
    }

    /// The source of a text.
    pub fn new(content: &str) -> (r: Source)
        ensures
            r.wf(),
            r.chars@ == content@,
    {
        let chars = text::chars_of(content);
        let ghost s = chars@;
        let mut starts: Vec<Option<usize>> = Vec::new();
        let mut i: usize = 0;
        while i < chars.len()
            invariant
                i <= chars@.len(),
                s == chars@,
                starts@.len() == text::byte_len(s.take(i as int)),
                forall|b: int|
                    0 <= b < starts@.len() ==> syntax::opt_position(#[trigger] starts@[b])
                        == char_at(s, b),
            decreases chars@.len() - i,
        {
            proof {
                lemma_char_at_is(s, i as int);
                assert(s.take(i + 1).drop_last() =~= s.take(i as int));
            }
            let w: usize = text::char_width(chars[i]);
            starts.push(Some(i));
            let mut k: usize = 1;
            while k < w
                invariant
                    1 <= k <= w,
                    w <= 4,
                    i < s.len(),
                    text::byte_len(s.take(i + 1)) == text::byte_len(s.take(i as int)) + w,
                    starts@.len() == text::byte_len(s.take(i as int)) + k,
                    forall|b: int|
                        0 <= b < starts@.len() ==> syntax::opt_position(#[trigger] starts@[b])
                            == char_at(s, b),
                decreases w - k,
            {
                proof {
                    let b = starts@.len() as int;
                    lemma_char_at(s, b);
                    if let Some(j) = char_at(s, b) {
                        if j < i {
                            lemma_more_bytes(s, j, i as int);
                        } else if j > i + 1 {
                            lemma_more_bytes(s, i + 1, j);
                        }
                    }
                }
                starts.push(None);
                k = k + 1;
            }
            i = i + 1;
        }
        assert(s.take(i as int) =~= s);
        proof {
            lemma_char_at_is(s, i as int);
        }
        starts.push(Some(i));
        Source { chars, starts }
    }

    /// The number of characters before a byte position.
    fn position(&self, byte: usize) -> (r: Option<usize>)
        requires
            self.wf(),
        ensures
            syntax::opt_position(r) == char_at(self.chars@, byte as int),
            r matches Some(i) ==> i <= self.chars@.len(),
    {
        proof {
            lemma_char_at(self.chars@, byte as int);
        }
        if byte < self.starts.len() {
            self.starts[byte]
        } else {
            proof {
                if let Some(i) = char_at(self.chars@, byte as int) {
                    text::lemma_byte_len_mono(self.chars@, i);
                }
            }
            None
        }
    }

    /// The text between two byte positions.
    pub fn cut(&self, from: usize, to: usize) -> (r: Option<String>)
        requires
            self.wf(),
        ensures
            text::opt(r) == slice(self.chars@, from as int, to as int),
    {
        match (self.position(from), self.position(to)) {
            (Some(i), Some(j)) => {
                if i <= j {
                    Some(text::substring(&self.chars, i, j))
                } else {
                    None
                }
            },
            _ => None,
        }
    }
}

// ---------------------------------------------------------------------------
// Code
// ---------------------------------------------------------------------------

/// The text of a file with its syntax tree and the captures of its query.
pub struct Code {
    pub source: Source,
    pub nodes: Vec<SourceNode>,
    pub steps: Vec<CaptureStep>,
}

/// The mathematical value of a code.
pub struct Reading {
    pub text: Seq<char>,
    pub nodes: Seq<SyntaxNode>,
    pub steps: Seq<Step>,
}

/// A node refers to earlier nodes, and its range is a part of the text.
pub open spec fn node_fits(r: Reading, i: int) -> bool {
    let n = r.nodes[i];
    &&& n.parent matches Some(p) ==> 0 <= p < i
    &&& n.previous matches Some(p) ==> 0 <= p < i && r.nodes[p].start_byte <= n.start_byte
    &&& char_at(r.text, n.start_byte) is Some
    &&& char_at(r.text, n.end_byte) is Some
    &&& n.start_byte <= n.end_byte
    &&& 0 <= n.start_row <= n.end_row < usize::MAX
}

/// A step is at one of the captures of its match, and these hold nodes of the tree.
pub open spec fn step_fits(r: Reading, i: int) -> bool {
    let s = r.steps[i];
    &&& 0 <= s.index < s.captures.len()
    &&& forall|k: int|
        0 <= k < s.captures.len() ==> 0 <= (#[trigger] s.captures[k]).1 < r.nodes.len()
}

impl Reading {
    /// The tree and the captures fit the text.
    pub open spec fn sound(self) -> bool {
        &&& forall|i: int| #![trigger self.nodes[i]] 0 <= i < self.nodes.len() ==> node_fits(self, i)
        &&& forall|i: int| #![trigger self.steps[i]] 0 <= i < self.steps.len() ==> step_fits(self, i)
    }

    /// The name of the capture that a step is at.
    pub open spec fn name(self, i: int) -> Seq<char> {
        self.steps[i].captures[self.steps[i].index].0
    }

    /// The node of the capture that a step is at.
    pub open spec fn node(self, i: int) -> int {
        self.steps[i].captures[self.steps[i].index].1
    }

    /// The text of a node.
    pub open spec fn node_text(self, n: int) -> Seq<char> {
        slice(self.text, self.nodes[n].start_byte, self.nodes[n].end_byte)->0
    }

    /// The row that the capture of a step starts on.
    pub open spec fn row(self, i: int) -> int {
        self.nodes[self.node(i)].start_row
    }
}

impl View for Code {
    type V = Reading;

    open spec fn view(&self) -> Reading {
        Reading {
            text: self.source.chars@,
            nodes: syntax::nodes(self.nodes@),
            steps: syntax::steps(self.steps@),
        }
    }
}

impl Code {
    /// The tree and the captures fit the text.
    pub open spec fn wf(&self) -> bool {
        self.source.wf() && self@.sound()
    }

    fn node_is_sound(&self, i: usize) -> (r: bool)
        requires
            self.source.wf(),
            i < self.nodes@.len(),
        ensures
            r == node_fits(self@, i as int),
    {
        let n = &self.nodes[i];
        assert(self@.nodes[i as int] == n@);
        if let Some(p) = n.parent {
            if p >= i {
                return false;
            }
        }
        if let Some(p) = n.previous {
            if p >= i {
                return false;
            }
            assert(self@.nodes[p as int] == self.nodes@[p as int]@);
            if self.nodes[p].start_byte > n.start_byte {
                return false;
            }
        }
        n.start_byte <= n.end_byte && n.start_row <= n.end_row && n.end_row < usize::MAX
            && self.source.position(n.start_byte).is_some() && self.source.position(
            n.end_byte,
        ).is_some()
    }

    fn step_is_sound(&self, i: usize) -> (r: bool)
        requires
            i < self.steps@.len(),
        ensures
            r == step_fits(self@, i as int),
    {
        let s = &self.steps[i];
        assert(self@.steps[i as int] == s@);
        if s.index >= s.captures.len() {
            return false;
        }
        let mut k: usize = 0;
        while k < s.captures.len()
            invariant
                k <= s.captures@.len(),
                self@.steps[i as int] == s@,
                forall|j: int|
                    0 <= j < k ==> 0 <= (#[trigger] s@.captures[j]).1 < self.nodes@.len(),
            decreases s.captures@.len() - k,
        {
            assert(s@.captures[k as int].1 == s.captures@[k as int].node);
            if s.captures[k].node >= self.nodes.len() {
                return false;
            }
            k = k + 1;
        }
        true
    }

    fn is_sound(&self) -> (r: bool)
        requires
            self.source.wf(),
        ensures
            r == self.wf(),
    {
        let mut i: usize = 0;
        while i < self.nodes.len()
            invariant
                i <= self.nodes@.len(),
                self.source.wf(),
                forall|j: int| #![trigger self@.nodes[j]] 0 <= j < i ==> node_fits(self@, j),
            decreases self.nodes@.len() - i,
        {
            if !self.node_is_sound(i) {
                assert(self@.nodes[i as int] == self.nodes@[i as int]@);
                return false;
            }
            i = i + 1;
        }
        let mut k: usize = 0;
        while k < self.steps.len()
            invariant
                k <= self.steps@.len(),
                self.source.wf(),
                forall|j: int| #![trigger self@.steps[j]] 0 <= j < k ==> step_fits(self@, j),
            decreases self.steps@.len() - k,
        {
            if !self.step_is_sound(k) {
                assert(self@.steps[k as int] == self.steps@[k as int]@);
                return false;
            }
            k = k + 1;
        }
        true
    }

    /// Joins a text, its tree and its captures, where they fit together.
    pub fn join(content: &str, nodes: Vec<SourceNode>, steps: Vec<CaptureStep>) -> (r: Option<Code>)
        ensures
            ({
                let v = Reading {
                    text: content@,
                    nodes: syntax::nodes(nodes@),
                    steps: syntax::steps(steps@),
                };
                &&& r is Some <==> v.sound()
                &&& r matches Some(c) ==> c.wf() && c@ == v
            }),
    {
        let c = Code { source: Source::new(content), nodes, steps };
        if c.is_sound() {
            Some(c)
        } else {
            None
        }
    }

    /// The name of the capture that a step is at.
    pub fn name(&self, i: usize) -> (r: &str)
        requires
            self.wf(),
            i < self.steps@.len(),
        ensures
            r@ == self@.name(i as int),
    {
        let s = &self.steps[i];
        assert(self@.steps[i as int] == s@);
        assert(step_fits(self@, i as int));
        assert(s@.captures[s.index as int].0 == s.captures@[s.index as int].name@);
        s.captures[s.index].name.as_str()
    }

    /// The node of the capture that a step is at.
    pub fn node(&self, i: usize) -> (r: usize)
        requires
            self.wf(),
            i < self.steps@.len(),
        ensures
            r == self@.node(i as int),
            r < self.nodes@.len(),
    {
        let s = &self.steps[i];
        assert(self@.steps[i as int] == s@);
        assert(step_fits(self@, i as int));
        assert(s@.captures[s.index as int].1 == s.captures@[s.index as int].node);
        s.captures[s.index].node
    }

    /// The text of a node.
    pub fn node_text(&self, n: usize) -> (r: String)
        requires
            self.wf(),
            n < self.nodes@.len(),
        ensures
            r@ == self@.node_text(n as int),
    {
        assert(self@.nodes[n as int] == self.nodes@[n as int]@);
        assert(node_fits(self@, n as int));
        proof {
            lemma_slice(
                self@.text,
                self@.nodes[n as int].start_byte,
                self@.nodes[n as int].end_byte,
            );
        }
        match self.source.cut(self.nodes[n].start_byte, self.nodes[n].end_byte) {
            Some(t) => t,
            None => String::new(),
        }
    }

    /// The row that the capture of a step starts on.
    pub fn row(&self, i: usize) -> (r: usize)
        requires
            self.wf(),
            i < self.steps@.len(),
        ensures
            r == self@.row(i as int),
    {
        let n: usize = self.node(i);
        assert(self@.nodes[n as int] == self.nodes@[n as int]@);
        self.nodes[n].start_row
    }
}

} // verus!
