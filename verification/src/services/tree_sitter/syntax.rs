//! Syntax trees and query captures as plain values.
//!
//! A tree is the list of its nodes in pre-order, so that a node is named by its
//! position: the root is node zero, and every node comes after its parent.

use crate::text;
use streaming_iterator::StreamingIterator;
use vstd::prelude::*;

verus! {

/// The grammars that files can be parsed with.
#[derive(Debug, Clone, Copy, PartialEq, Eq, Structural)]
pub enum Grammar {
    JavaScript,
    TypeScript,
    Tsx,
    Python,
    Rust,
    Go,
    C,
    Cpp,
    CSharp,
    Ruby,
    Java,
    Php,
    Swift,
}

/// A node of a syntax tree.
#[derive(Debug, Clone)]
pub struct SourceNode {
    /// What the grammar calls the node.
    pub kind: String,
    pub parent: Option<usize>,
    /// The named sibling just before the node.
    pub previous: Option<usize>,
    pub start_byte: usize,
    pub end_byte: usize,
    pub start_row: usize,
    pub start_column: usize,
    pub end_row: usize,
    pub end_column: usize,
}

/// A capture of a query: its name and the node that it holds.
#[derive(Debug, Clone)]
pub struct Capture {
    pub name: String,
    pub node: usize,
}

/// A step of walking the captures of a query: the match that the capture belongs to,
/// all captures of that match, and which of them it is.
#[derive(Debug, Clone)]
pub struct CaptureStep {
    pub match_id: u32,
    pub captures: Vec<Capture>,
    pub index: usize,
}

/// The mathematical value of a node.
pub struct SyntaxNode {
    pub kind: Seq<char>,
    pub parent: Option<int>,
    pub previous: Option<int>,
    pub start_byte: int,
    pub end_byte: int,
    pub start_row: int,
    pub start_column: int,
    pub end_row: int,
    pub end_column: int,
}

/// The mathematical value of a step: the captures are names with nodes.
pub struct Step {
    pub match_id: u32,
    pub captures: Seq<(Seq<char>, int)>,
    pub index: int,
}

/// The position of a node that may be missing.
pub open spec fn opt_position(n: Option<usize>) -> Option<int> {
    match n {
        Some(i) => Some(i as int),
        None => None,
    }
}

impl View for SourceNode {
    type V = SyntaxNode;

    open spec fn view(&self) -> SyntaxNode {
        SyntaxNode {
            kind: self.kind@,
            parent: opt_position(self.parent),
            previous: opt_position(self.previous),
            start_byte: self.start_byte as int,
            end_byte: self.end_byte as int,
            start_row: self.start_row as int,
            start_column: self.start_column as int,
            end_row: self.end_row as int,
            end_column: self.end_column as int,
        }
    }
}

/// The values of a list of nodes.
pub open spec fn nodes(v: Seq<SourceNode>) -> Seq<SyntaxNode> {
    v.map_values(|n: SourceNode| n@)
}

/// The values of the captures of a match.
pub open spec fn capture_values(v: Seq<Capture>) -> Seq<(Seq<char>, int)> {
    v.map_values(|c: Capture| (c.name@, c.node as int))
}

impl View for CaptureStep {
    type V = Step;

    open spec fn view(&self) -> Step {
        Step {
            match_id: self.match_id,
            captures: capture_values(self.captures@),
            index: self.index as int,
        }
    }
}

/// The values of a list of steps.
pub open spec fn steps(v: Seq<CaptureStep>) -> Seq<Step> {
    v.map_values(|s: CaptureStep| s@)
}

// ---------------------------------------------------------------------------
// Parsing and querying
// ---------------------------------------------------------------------------

/// A language of the `tree_sitter` crate.
#[verifier::external_type_specification]
#[verifier::external_body]
pub struct ExLanguage(tree_sitter::Language);

/// A query of the `tree_sitter` crate.
#[verifier::external_type_specification]
#[verifier::external_body]
pub struct ExQuery(tree_sitter::Query);

/// A node of the `tree_sitter` crate.
#[verifier::external_type_specification]
#[verifier::external_body]
pub struct ExNode<'tree>(tree_sitter::Node<'tree>);

/// A capture of the `tree_sitter` crate.
#[verifier::external_type_specification]
#[verifier::external_body]
pub struct ExQueryCapture<'tree>(tree_sitter::QueryCapture<'tree>);

/// What `Parser::set_language` and `Parser::parse` make of a text: the nodes in
/// pre-order, no tree, or the message of an unfit grammar.
pub uninterp spec fn parsed(g: Grammar, text: Seq<char>) -> Result<Option<Seq<SyntaxNode>>, Seq<char>>;

/// The message of `Query::new` where a text is no query for a grammar.
pub uninterp spec fn query_failure(g: Grammar, query: Seq<char>) -> Option<Seq<char>>;

/// What `QueryCursor::captures` walks over when it starts at a node of the tree of a
/// text; nothing where there is no such tree, query or node.
pub uninterp spec fn captured(
    g: Grammar,
    query: Seq<char>,
    text: Seq<char>,
    from: int,
) -> Option<Seq<Step>>;

/// The language of a grammar crate.
#[verifier::external_body]
fn language(g: Grammar) -> (r: tree_sitter::Language) {
    tree_sitter::Language::new(match g {
        Grammar::JavaScript => tree_sitter_javascript::LANGUAGE,
        Grammar::TypeScript => tree_sitter_typescript::LANGUAGE_TYPESCRIPT,
        Grammar::Tsx => tree_sitter_typescript::LANGUAGE_TSX,
        Grammar::Python => tree_sitter_python::LANGUAGE,
        Grammar::Rust => tree_sitter_rust::LANGUAGE,
        Grammar::Go => tree_sitter_go::LANGUAGE,
        Grammar::C => tree_sitter_c::LANGUAGE,
        Grammar::Cpp => tree_sitter_cpp::LANGUAGE,
        Grammar::CSharp => tree_sitter_c_sharp::LANGUAGE,
        Grammar::Ruby => tree_sitter_ruby::LANGUAGE,
        Grammar::Java => tree_sitter_java::LANGUAGE,
        Grammar::Php => tree_sitter_php::LANGUAGE_PHP,
        Grammar::Swift => tree_sitter_swift::LANGUAGE,
    })
}

/// The nodes below a node and itself, in pre-order, by `Node::children`.
#[verifier::external_body]
fn all_nodes<'tree>(root: tree_sitter::Node<'tree>) -> (r: Vec<tree_sitter::Node<'tree>>) {
    let mut out = Vec::new();
    let mut todo = vec![root];
    while let Some(n) = todo.pop() {
        out.push(n);
        todo.extend(n.children(&mut n.walk()).collect::<Vec<_>>().into_iter().rev());
    }
    out
}

/// The positions of nodes in a list, by the number that `Node::id` gives each of them.
#[verifier::external_body]
fn positions(list: &Vec<tree_sitter::Node<'_>>) -> (r: std::collections::HashMap<usize, usize>) {
    list.iter().enumerate().map(|(i, n)| (n.id(), i)).collect()
}

/// A node as `Node`'s getters show it, with its parent and its previous named sibling by
/// their positions.
#[verifier::external_body]
fn node_value(
    n: &tree_sitter::Node<'_>,
    at: &std::collections::HashMap<usize, usize>,
) -> (r: SourceNode) {
    SourceNode {
        kind: n.kind().to_owned(),
        parent: n.parent().map(|p| at[&p.id()]),
        previous: n.prev_named_sibling().map(|p| at[&p.id()]),
        start_byte: n.start_byte(),
        end_byte: n.end_byte(),
        start_row: n.start_position().row,
        start_column: n.start_position().column,
        end_row: n.end_position().row,
        end_column: n.end_position().column,
    }
}

/// The value of the outcome of parsing.
pub open spec fn outcome(r: Result<Option<Vec<SourceNode>>, String>) -> Result<
    Option<Seq<SyntaxNode>>,
    Seq<char>,
> {
    match r {
        Ok(Some(v)) => Ok(Some(nodes(v@))),
        Ok(None) => Ok(None),
        Err(e) => Err(e@),
    }
}

/// Calls `Parser::set_language` and `Parser::parse` on a text, and hands out the nodes of
/// the tree in pre-order: the kind, the parent and the previous named sibling of each, and
/// its range. The outcome is a function of the grammar and the text alone.
#[verifier::external_body]
pub(crate) fn parse(g: Grammar, content: &str) -> (r: Result<Option<Vec<SourceNode>>, String>)
    ensures
        outcome(r) == parsed(g, content@),
{
    let mut parser = tree_sitter::Parser::new();
    parser.set_language(&language(g)).map_err(|e| e.to_string())?;
    let Some(tree) = parser.parse(content, None) else { return Ok(None) };
    let list = all_nodes(tree.root_node());
    let at = positions(&list);
    Ok(Some(list.iter().map(|n| node_value(n, &at)).collect()))
}

/// Calls `Query::new`. Whether a text is a query, and the message where it is none, is a
/// function of the grammar and the text alone.
#[verifier::external_body]
pub(crate) fn check_query(g: Grammar, query: &str) -> (r: Option<String>)
    ensures
        text::opt(r) == query_failure(g, query@),
{
    tree_sitter::Query::new(&language(g), query).err().map(|e| e.to_string())
}

/// The captures of a match with the names that `Query::capture_names` gives them and the
/// positions of their nodes.
#[verifier::external_body]
fn match_captures(
    captures: &[tree_sitter::QueryCapture<'_>],
    query: &tree_sitter::Query,
    at: &std::collections::HashMap<usize, usize>,
) -> (r: Vec<Capture>) {
    captures.iter().map(|c| Capture {
        name: query.capture_names()[c.index as usize].to_owned(),
        node: at[&c.node.id()],
    }).collect()
}

/// Calls `QueryCursor::captures` on the tree of a text, from a node on, and hands out
/// each step as `QueryMatch` shows it: the number of the match, all its captures with
/// their names, and which of them the step is at. The outcome is a function of the
/// arguments alone.
#[verifier::external_body]
pub(crate) fn capture(g: Grammar, query: &str, content: &str, from: usize) -> (r: Option<
    Vec<CaptureStep>,
>)
    ensures
        r matches Some(v) ==> captured(g, query@, content@, from as int) == Some(steps(v@)),
        r is None ==> captured(g, query@, content@, from as int) is None,
{
    let mut parser = tree_sitter::Parser::new();
    parser.set_language(&language(g)).ok()?;
    let tree = parser.parse(content, None)?;
    let query = tree_sitter::Query::new(&language(g), query).ok()?;
    let list = all_nodes(tree.root_node());
    let at = positions(&list);
    let mut cursor = tree_sitter::QueryCursor::new();
    let mut walk = cursor.captures(&query, *list.get(from)?, content.as_bytes());
    let mut out = Vec::new();
    while let Some((m, i)) = walk.next() {
        let captures = match_captures(m.captures, &query, &at);
        out.push(CaptureStep { match_id: m.id(), captures, index: *i });
    }
    Some(out)
}

} // verus!
