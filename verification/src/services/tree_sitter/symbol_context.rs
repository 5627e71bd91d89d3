//! The context of a symbol: imports and the parts of its class.

use crate::services::tree_sitter::code;
use crate::services::tree_sitter::code::Source;
use crate::services::tree_sitter::parser::{Failure, LanguageParserError};
use crate::services::tree_sitter::syntax;
use crate::services::tree_sitter::syntax::{CaptureStep, Grammar, SourceNode, Step, SyntaxNode};
use crate::text;
use vstd::prelude::*;

verus! {

/// The context query of JavaScript and TypeScript.
pub const SCRIPT_CONTEXT: &'static str =
    r#"
                (import_declaration) @import
                (class_declaration) @class
                (class_heritage) @class.heritage
                (public_field_definition) @property
                (private_property_definition) @property
                (method_definition) @method
                (identifier) @ref
                (property_identifier) @ref
            "#;

/// The context query of Python.
pub const PYTHON_CONTEXT: &'static str =
    r#"
                (import_from_statement) @import
                (import_statement) @import
                (class_definition) @class
                (function_definition) @method
                (assignment left: (attribute object: (identifier) @self attribute: (identifier) @property)) @property
                (identifier) @ref
            "#;

/// The context query of Java.
pub const JAVA_CONTEXT: &'static str =
    r#"
                (import_declaration) @import
                (class_declaration) @class
                (field_declaration) @property
                (method_declaration) @method
                (identifier) @ref
            "#;

/// The context query of an extension.
pub open spec fn context_query(ext: Seq<char>) -> Option<Seq<char>> {
    if ext == "ts"@ || ext == "tsx"@ || ext == "js"@ || ext == "jsx"@ {
        Some(SCRIPT_CONTEXT@)
    } else if ext == "py"@ {
        Some(PYTHON_CONTEXT@)
    } else if ext == "java"@ {
        Some(JAVA_CONTEXT@)
    } else {
        None
    }
}

/// The context query of an extension.
pub fn get_query_strings(ext: &str) -> (r: Option<&'static str>)
    ensures
        r matches Some(q) ==> context_query(ext@) == Some(q@),
        r is None ==> context_query(ext@) is None,
{
    if text::same(ext, "ts") || text::same(ext, "tsx") || text::same(ext, "js") || text::same(
        ext,
        "jsx",
    ) {
        Some(SCRIPT_CONTEXT)
    } else if text::same(ext, "py") {
        Some(PYTHON_CONTEXT)
    } else if text::same(ext, "java") {
        Some(JAVA_CONTEXT)
    } else {
        None
    }
}

// ---------------------------------------------------------------------------
// Sections
// ---------------------------------------------------------------------------

/// The texts captured under a name, in order.
pub open spec fn captured_as(v: Seq<(Seq<char>, Seq<char>)>, name: Seq<char>) -> Seq<Seq<char>>
    decreases v.len(),
{
    if v.len() == 0 {
        Seq::empty()
    } else if v.last().0 == name {
        captured_as(v.drop_last(), name).push(v.last().1)
    } else {
        captured_as(v.drop_last(), name)
    }
}

/// What has been put together: the parts, and how many lines of captured text they hold.
pub struct Draft {
    pub parts: Seq<Seq<char>>,
    pub lines: int,
}

impl Draft {
    /// Adds those of the texts that fit within the limit, in order.
    pub open spec fn texts(self, v: Seq<Seq<char>>, limit: int) -> Draft
        decreases v.len(),
    {
        if v.len() == 0 {
            self
        } else {
            let d = self.texts(v.drop_last(), limit);
            let n = text::text_lines(v.last()).len();
            if d.lines + n <= limit {
                Draft { parts: d.parts.push(v.last()), lines: d.lines + n }
            } else {
                d
            }
        }
    }

    /// Adds a section: an empty line where something stands before it, its heading and
    /// its texts. A section without texts is left out.
    pub open spec fn section(self, heading: Seq<char>, v: Seq<Seq<char>>, limit: int) -> Draft {
        if v.len() == 0 {
            self
        } else {
            let apart = if self.parts.len() > 0 {
                self.parts.push(Seq::empty())
            } else {
                self.parts
            };
            Draft { parts: apart.push(heading), ..self }.texts(v, limit)
        }
    }
}

/// The draft of a context: imports, class, properties and methods.
pub open spec fn draft(v: Seq<(Seq<char>, Seq<char>)>, limit: int) -> Draft {
    Draft { parts: Seq::empty(), lines: 0 }.section(
        "### Imports"@,
        captured_as(v, "import"@),
        limit,
    ).section("### Class"@, captured_as(v, "class"@), limit).section(
        "### Properties"@,
        captured_as(v, "property"@),
        limit,
    ).section("### Methods"@, captured_as(v, "method"@), limit)
}

/// The context that captured texts make.
pub open spec fn context(v: Seq<(Seq<char>, Seq<char>)>, limit: int) -> Seq<char> {
    text::joined(draft(v, limit).parts, "\n"@)
}

/// A context holds no more lines of captured text than the limit allows.
pub proof fn law_context_stays_within_limit(v: Seq<(Seq<char>, Seq<char>)>, limit: nat)
    ensures
        0 <= draft(v, limit as int).lines <= limit,
{
    let l = limit as int;
    let a = Draft { parts: Seq::empty(), lines: 0 };
    let b = a.section("### Imports"@, captured_as(v, "import"@), l);
    let c = b.section("### Class"@, captured_as(v, "class"@), l);
    let d = c.section("### Properties"@, captured_as(v, "property"@), l);
    lemma_section_stays_within(a, "### Imports"@, captured_as(v, "import"@), l);
    lemma_section_stays_within(b, "### Class"@, captured_as(v, "class"@), l);
    lemma_section_stays_within(c, "### Properties"@, captured_as(v, "property"@), l);
    lemma_section_stays_within(d, "### Methods"@, captured_as(v, "method"@), l);
}

proof fn lemma_section_stays_within(
    d: Draft,
    heading: Seq<char>,
    v: Seq<Seq<char>>,
    limit: int,
)
    requires
        0 <= d.lines <= limit,
    ensures
        0 <= d.section(heading, v, limit).lines <= limit,
{
    let apart = if d.parts.len() > 0 {
        d.parts.push(Seq::empty())
    } else {
        d.parts
    };
    lemma_texts_stay_within(Draft { parts: apart.push(heading), ..d }, v, limit);
}

proof fn lemma_texts_stay_within(d: Draft, v: Seq<Seq<char>>, limit: int)
    requires
        0 <= d.lines <= limit,
    ensures
        0 <= d.texts(v, limit).lines <= limit,
    decreases v.len(),
{
    if v.len() > 0 {
        lemma_texts_stay_within(d, v.drop_last(), limit);
    }
}

fn texts_of(v: &Vec<(String, String)>, name: &str) -> (r: Vec<String>)
    ensures
        text::texts(r@) == captured_as(text::pair_texts(v@), name@),
{
    let ghost ps = text::pair_texts(v@);
    let mut out: Vec<String> = Vec::new();
    let mut i: usize = 0;
    assert(text::texts(out@) =~= captured_as(ps.take(0), name@));
    while i < v.len()
        invariant
            i <= v@.len(),
            ps == text::pair_texts(v@),
            text::texts(out@) == captured_as(ps.take(i as int), name@),
        decreases v@.len() - i,
    {
        assert(ps.take(i + 1).drop_last() =~= ps.take(i as int));
        assert(ps.take(i + 1).last() == (v@[i as int].0@, v@[i as int].1@));
        if text::same(v[i].0.as_str(), name) {
            let ghost before = out@;
            out.push(v[i].1.clone());
            assert(text::texts(out@) =~= text::texts(before).push(v@[i as int].1@));
        }
        i = i + 1;
    }
    assert(ps.take(i as int) =~= ps);
    out
}

fn push_line(parts: &mut Vec<String>, t: String)
    ensures
        text::texts(final(parts)@) == text::texts(old(parts)@).push(t@),
{
    let ghost x = t@;
    parts.push(t);
    assert(text::texts(parts@) =~= text::texts(old(parts)@).push(x));
}

fn add_section(
    parts: &mut Vec<String>,
    used: usize,
    heading: &str,
    v: &Vec<String>,
    limit: usize,
) -> (r: usize)
    requires
        used <= limit,
    ensures
        r <= limit,
        (Draft { parts: text::texts(final(parts)@), lines: r as int }) == (Draft {
            parts: text::texts(old(parts)@),
            lines: used as int,
        }).section(heading@, text::texts(v@), limit as int),
{
    let ghost ts = text::texts(v@);
    if v.len() == 0 {
        return used;
    }
    if parts.len() > 0 {
        let empty = String::new();
        push_line(parts, empty);
        assert(Seq::<char>::empty() =~= empty@);
    }
    push_line(parts, heading.to_owned());
    let ghost start = Draft { parts: text::texts(parts@), lines: used as int };
    let mut lines: usize = used;
    let mut i: usize = 0;
    assert(ts.take(0) =~= Seq::empty());
    while i < v.len()
        invariant
            i <= v@.len(),
            lines <= limit,
            ts == text::texts(v@),
            (Draft { parts: text::texts(parts@), lines: lines as int }) == start.texts(
                ts.take(i as int),
                limit as int,
            ),
        decreases v@.len() - i,
    {
        assert(ts.take(i + 1).drop_last() =~= ts.take(i as int));
        assert(ts.take(i + 1).last() == v@[i as int]@);
        let own = text::lines(v[i].as_str());
        assert(text::texts(own@).len() == own@.len());
        let n: usize = own.len();
        if n <= limit - lines {
            push_line(parts, v[i].clone());
            lines = lines + n;
        }
        i = i + 1;
    }
    assert(ts.take(i as int) =~= ts);
    lines
}

/// Builds a context string from captured texts, given with the names of their captures.
pub fn build_context_from_captures(
    captures: &Vec<(String, String)>,
    max_context_lines: usize,
) -> (r: String)
    ensures
        r@ == context(text::pair_texts(captures@), max_context_lines as int),
{
    let mut parts: Vec<String> = Vec::new();
    assert(text::texts(parts@) =~= Seq::empty());
    let imports = texts_of(captures, "import");
    let classes = texts_of(captures, "class");
    let properties = texts_of(captures, "property");
    let methods = texts_of(captures, "method");
    let a: usize = add_section(&mut parts, 0, "### Imports", &imports, max_context_lines);
    let b: usize = add_section(&mut parts, a, "### Class", &classes, max_context_lines);
    let c: usize = add_section(&mut parts, b, "### Properties", &properties, max_context_lines);
    let _d: usize = add_section(&mut parts, c, "### Methods", &methods, max_context_lines);
    text::join(&parts, "\n")
}

// ---------------------------------------------------------------------------
// Nodes
// ---------------------------------------------------------------------------

/// Every step is at a node whose range is a part of the text.
pub open spec fn steps_fit(text: Seq<char>, nodes: Seq<SyntaxNode>, steps: Seq<Step>) -> bool {
    forall|i: int|
        #![trigger steps[i]]
        0 <= i < steps.len() ==> {
            let s = steps[i];
            &&& 0 <= s.index < s.captures.len()
            &&& 0 <= s.captures[s.index].1 < nodes.len()
            &&& code::slice(
                text,
                nodes[s.captures[s.index].1].start_byte,
                nodes[s.captures[s.index].1].end_byte,
            ) is Some
        }
}

/// The captures of steps: their names with the texts of their nodes.
pub open spec fn captured_texts(
    text: Seq<char>,
    nodes: Seq<SyntaxNode>,
    steps: Seq<Step>,
) -> Seq<(Seq<char>, Seq<char>)> {
    steps.map_values(
        |s: Step|
            {
                let (name, n) = s.captures[s.index];
                (name, code::slice(text, nodes[n].start_byte, nodes[n].end_byte)->0)
            },
    )
}

/// The captures of steps, where every step is at a node within the text.
pub fn read_captures(source: &Source, nodes: &Vec<SourceNode>, steps: &Vec<CaptureStep>) -> (r:
    Option<Vec<(String, String)>>)
    requires
        source.wf(),
    ensures
        r is Some <==> steps_fit(source.chars@, syntax::nodes(nodes@), syntax::steps(steps@)),
        r matches Some(v) ==> text::pair_texts(v@) == captured_texts(
            source.chars@,
            syntax::nodes(nodes@),
            syntax::steps(steps@),
        ),
{
    let ghost ns = syntax::nodes(nodes@);
    let ghost ss = syntax::steps(steps@);
    let ghost all = captured_texts(source.chars@, ns, ss);
    let mut out: Vec<(String, String)> = Vec::new();
    let mut i: usize = 0;
    assert(text::pair_texts(out@) =~= all.take(0));
    while i < steps.len()
        invariant
            source.wf(),
            i <= steps@.len(),
            ns == syntax::nodes(nodes@),
            ss == syntax::steps(steps@),
            all == captured_texts(source.chars@, ns, ss),
            steps_fit(source.chars@, ns, ss.take(i as int)),
            text::pair_texts(out@) == all.take(i as int),
        decreases steps@.len() - i,
    {
        let s = &steps[i];
        assert(ss[i as int] == s@);
        if s.index >= s.captures.len() {
            return None;
        }
        let capture = &s.captures[s.index];
        assert(s@.captures[s.index as int] == (capture.name@, capture.node as int));
        if capture.node >= nodes.len() {
            return None;
        }
        let n = &nodes[capture.node];
        assert(ns[capture.node as int] == n@);
        match source.cut(n.start_byte, n.end_byte) {
            None => {
                return None;
            },
            Some(t) => {
                let ghost before = out@;
                out.push((capture.name.clone(), t));
                assert(text::pair_texts(out@) =~= text::pair_texts(before).push((capture.name@, t@)));
                assert(all[i as int] == (capture.name@, t@));
                assert(text::pair_texts(out@) =~= all.take(i + 1));
            },
        }
        assert forall|k: int| #![trigger ss.take(i + 1)[k]] 0 <= k < i + 1 implies {
            let s = ss.take(i + 1)[k];
            &&& 0 <= s.index < s.captures.len()
            &&& 0 <= s.captures[s.index].1 < ns.len()
            &&& code::slice(
                source.chars@,
                ns[s.captures[s.index].1].start_byte,
                ns[s.captures[s.index].1].end_byte,
            ) is Some
        } by {
            if k < i {
                assert(ss.take(i as int)[k] == ss.take(i + 1)[k]);
            }
        }
        i = i + 1;
    }
    assert(ss.take(i as int) =~= ss);
    assert(all.take(i as int) =~= all);
    Some(out)
}

/// Options for resolving symbol context.
pub struct SymbolContextOptions<'a> {
    /// The symbol, a node of the tree.
    pub node: usize,
    pub nodes: &'a Vec<SourceNode>,
    pub source: &'a Source,
    pub file_content: &'a str,
    pub ext: &'a str,
    pub max_context_lines: Option<usize>,
}

/// Result of resolving symbol context.
pub struct SymbolContextResult {
    pub context: String,
}

/// The context of a node where the query has been run; nothing where a captured node is
/// not within the text.
pub open spec fn context_of(
    text: Seq<char>,
    nodes: Seq<SyntaxNode>,
    steps: Option<Seq<Step>>,
    limit: int,
) -> Seq<char> {
    match steps {
        Some(s) => if steps_fit(text, nodes, s) {
            context(captured_texts(text, nodes, s), limit)
        } else {
            Seq::empty()
        },
        None => Seq::empty(),
    }
}

/// What resolving the context of a node gives: nothing for an extension without a context
/// query, the message of a query that does not suit the grammar, or the context.
pub open spec fn resolved(
    g: Grammar,
    ext: Seq<char>,
    text: Seq<char>,
    nodes: Seq<SyntaxNode>,
    node: int,
    limit: int,
) -> Result<Seq<char>, Failure> {
    match context_query(ext) {
        None => Ok(Seq::empty()),
        Some(q) => match syntax::query_failure(g, q) {
            Some(m) => Err(Failure::Query(m)),
            None => Ok(context_of(text, nodes, syntax::captured(g, q, text, node), limit)),
        },
    }
}

/// Resolves relevant context (imports and class properties) for a given symbol node. The
/// context is empty where a captured node is not within the text.
pub fn resolve_symbol_context(options: &SymbolContextOptions<'_>, grammar: Grammar) -> (r: Result<
    SymbolContextResult,
    LanguageParserError,
>)
    requires
        options.source.wf(),
        options.source.chars@ == options.file_content@,
    ensures
        ({
            let p = resolved(
                grammar,
                options.ext@,
                options.file_content@,
                syntax::nodes(options.nodes@),
                options.node as int,
                match options.max_context_lines {
                    Some(n) => n as int,
                    None => 30,
                },
            );
            &&& r matches Ok(c) ==> p == Ok::<Seq<char>, Failure>(c.context@)
            &&& r matches Err(e) ==> p == Err::<Seq<char>, Failure>(e@)
        }),
{
    let query = match get_query_strings(options.ext) {
        Some(q) => q,
        None => return Ok(SymbolContextResult { context: String::new() }),
    };
    if let Some(m) = syntax::check_query(grammar, query) {
        return Err(LanguageParserError::QueryCreation(m));
    }
    let limit: usize = match options.max_context_lines {
        Some(n) => n,
        None => 30,
    };
    match syntax::capture(grammar, query, options.file_content, options.node) {
        None => Ok(SymbolContextResult { context: String::new() }),
        Some(steps) => match read_captures(options.source, options.nodes, &steps) {
            None => Ok(SymbolContextResult { context: String::new() }),
            Some(captures) => Ok(
                SymbolContextResult { context: build_context_from_captures(&captures, limit) },
            ),
        },
    }
}

} // verus!
