//! Finding functions by name, with their text, anchors and context.

use crate::services::tree_sitter::code;
use crate::services::tree_sitter::code::{Code, Reading};
use crate::services::tree_sitter::definitions;
use crate::services::tree_sitter::functions;
use crate::services::tree_sitter::functions::Telling;
use crate::services::tree_sitter::parser;
use crate::services::tree_sitter::parser::{
    Failure, LanguageParserEntry, LanguageParserError, LanguageParserMap, LanguageValue,
};
use crate::services::tree_sitter::symbol_context;
use crate::services::tree_sitter::symbol_context::SymbolContextOptions;
use crate::services::tree_sitter::syntax;
use crate::text;
use vstd::prelude::*;

verus! {

/// Result of getting functions from a file.
#[derive(Debug, Clone)]
pub struct GetFunctionsResult {
    pub formatted_content: String,
    pub found_names: Vec<String>,
}

/// A function that was found.
#[derive(Debug)]
pub struct FoundFunction {
    pub full_name: String,
    /// The text of the function, with its wrappers and the comments before it.
    pub text: String,
    /// The lines of the text, each with the anchor of its line in the file.
    pub lines: Vec<(String, String)>,
    /// The context of the function under its heading, or nothing.
    pub context: String,
}

/// The functions of a file that answer to requested names.
#[derive(Debug)]
pub struct FoundFunctions {
    pub functions: Vec<FoundFunction>,
    pub found_names: Vec<String>,
}

/// The outcome of a search: an answer that is final, or functions that are still to be
/// shown.
#[derive(Debug)]
pub enum FunctionSearch {
    Answer(GetFunctionsResult),
    Found(FoundFunctions),
}

/// How a function is shown: its hash and its lines with their anchors.
#[derive(Debug)]
pub struct ShownFunction {
    pub hash: String,
    pub lines: Vec<String>,
}

// ---------------------------------------------------------------------------
// The search
// ---------------------------------------------------------------------------

/// A function in a file: its full name, the nodes of its name and its whole, the range of
/// its text and the line on which that starts.
pub struct Place {
    pub full_name: Seq<char>,
    pub name_node: int,
    pub node: int,
    pub from: int,
    pub to: int,
    pub line: int,
}

/// What has been found so far: the places, the requested names that were answered to, and
/// nothing twice.
pub struct Search {
    pub places: Seq<Place>,
    pub names: Seq<Seq<char>>,
}

/// One of the first `k` requested names is answered to.
pub open spec fn answers_any(full: Seq<char>, asked: Seq<Seq<char>>, k: int) -> bool {
    exists|j: int| 0 <= j < k && #[trigger] functions::answers(full, asked[j])
}

/// The names with those of the first `k` requested ones that are answered to.
pub open spec fn answered(
    have: Seq<Seq<char>>,
    full: Seq<char>,
    asked: Seq<Seq<char>>,
    k: int,
) -> Seq<Seq<char>>
    decreases k,
{
    if k <= 0 {
        have
    } else if functions::answers(full, asked[k - 1]) {
        text::with_text(answered(have, full, asked, k - 1), asked[k - 1])
    } else {
        answered(have, full, asked, k - 1)
    }
}

/// A place with this range is among the first `k`.
pub open spec fn has_range(v: Seq<Place>, from: int, to: int, k: int) -> bool {
    exists|j: int| 0 <= j < k && (#[trigger] v[j]).from == from && v[j].to == to
}

/// The place that a step defines.
pub open spec fn place(r: Reading, n: int, d: int) -> Place {
    let e = functions::extended(r, d);
    Place {
        full_name: functions::full_name(r, d, r.node_text(n)),
        name_node: n,
        node: d,
        from: e.from,
        to: e.to,
        line: e.line,
    }
}

impl Search {
    /// Takes a step in: what its match defines is found where it answers to a requested
    /// name and its range was not found before.
    pub open spec fn step(self, r: Reading, i: int, asked: Seq<Seq<char>>) -> Search {
        match functions::defined_nodes(r, i, Telling::Anywhere) {
            None => self,
            Some((n, d)) => {
                let p = place(r, n, d);
                if answers_any(p.full_name, asked, asked.len() as int) {
                    Search {
                        places: if has_range(
                            self.places,
                            p.from,
                            p.to,
                            self.places.len() as int,
                        ) {
                            self.places
                        } else {
                            self.places.push(p)
                        },
                        names: answered(self.names, p.full_name, asked, asked.len() as int),
                    }
                } else {
                    self
                }
            },
        }
    }
}

/// What the first `k` steps find.
pub open spec fn search(r: Reading, asked: Seq<Seq<char>>, k: int) -> Search
    decreases k,
{
    if k <= 0 {
        Search { places: Seq::empty(), names: Seq::empty() }
    } else {
        search(r, asked, k - 1).step(r, k - 1, asked)
    }
}

/// What is found in a file.
pub open spec fn found_in(r: Reading, asked: Seq<Seq<char>>) -> Search {
    search(r, asked, r.steps.len() as int)
}

/// What is found answers to a requested name, its text is a part of the file, and no
/// text is found twice.
pub proof fn law_found_places(r: Reading, asked: Seq<Seq<char>>, k: int)
    requires
        r.sound(),
        0 <= k <= r.steps.len(),
    ensures
        forall|j: int|
            0 <= j < search(r, asked, k).places.len() ==> is_place(
                r,
                asked,
                #[trigger] search(r, asked, k).places[j],
            ),
        forall|i: int, j: int|
            0 <= i < j < search(r, asked, k).places.len() ==> !same_range(
                #[trigger] search(r, asked, k).places[i],
                #[trigger] search(r, asked, k).places[j],
            ),
    decreases k,
{
    if k > 0 {
        law_found_places(r, asked, k - 1);
        let before = search(r, asked, k - 1).places;
        let after = search(r, asked, k).places;
        if let Some((n, d)) = functions::defined_nodes(r, k - 1, Telling::Anywhere) {
            functions::lemma_defined_nodes(r, k - 1, Telling::Anywhere);
            functions::law_extended_range_is_in_text(r, d);
            let p = place(r, n, d);
            assert forall|j: int| 0 <= j < after.len() implies is_place(
                r,
                asked,
                #[trigger] after[j],
            ) by {
                if j < before.len() {
                    assert(is_place(r, asked, before[j]));
                    assert(after[j] == before[j]);
                }
            }
            assert forall|i: int, j: int| 0 <= i < j < after.len() implies !same_range(
                #[trigger] after[i],
                #[trigger] after[j],
            ) by {
                if j < before.len() {
                    assert(!same_range(before[i], before[j]));
                } else {
                    assert(before[i] == after[i]);
                }
            }
        }
    }
}

/// A place answers to a requested name, and its range is a part of the text.
pub open spec fn is_place(r: Reading, asked: Seq<Seq<char>>, p: Place) -> bool {
    &&& answers_any(p.full_name, asked, asked.len() as int)
    &&& code::slice(r.text, p.from, p.to) is Some
    &&& 0 <= p.node < r.nodes.len()
}

/// Two places have the same range.
pub open spec fn same_range(a: Place, b: Place) -> bool {
    a.from == b.from && a.to == b.to
}

/// Every requested name that counts as found was requested.
pub proof fn law_found_names_were_requested(r: Reading, asked: Seq<Seq<char>>, k: int)
    requires
        0 <= k,
    ensures
        forall|j: int|
            0 <= j < search(r, asked, k).names.len() ==> asked.contains(
                #[trigger] search(r, asked, k).names[j],
            ),
    decreases k,
{
    if k > 0 {
        law_found_names_were_requested(r, asked, k - 1);
        if let Some((n, d)) = functions::defined_nodes(r, k - 1, Telling::Anywhere) {
            lemma_answered(
                search(r, asked, k - 1).names,
                place(r, n, d).full_name,
                asked,
                asked.len() as int,
            );
        }
    }
}

proof fn lemma_answered(have: Seq<Seq<char>>, full: Seq<char>, asked: Seq<Seq<char>>, k: int)
    requires
        0 <= k <= asked.len(),
        forall|j: int| 0 <= j < have.len() ==> asked.contains(#[trigger] have[j]),
    ensures
        forall|j: int|
            0 <= j < answered(have, full, asked, k).len() ==> asked.contains(
                #[trigger] answered(have, full, asked, k)[j],
            ),
    decreases k,
{
    if k > 0 {
        lemma_answered(have, full, asked, k - 1);
        let before = answered(have, full, asked, k - 1);
        let after = answered(have, full, asked, k);
        assert forall|j: int| 0 <= j < after.len() implies asked.contains(#[trigger] after[j]) by {
            if j < before.len() {
                assert(after[j] == before[j]);
            } else {
                assert(after[j] == asked[k - 1]);
            }
        }
    }
}

/// A place as it is held while a file is searched.
struct Spot {
    full_name: String,
    name_node: usize,
    node: usize,
    from: usize,
    to: usize,
    line: usize,
}

impl View for Spot {
    type V = Place;

    closed spec fn view(&self) -> Place {
        Place {
            full_name: self.full_name@,
            name_node: self.name_node as int,
            node: self.node as int,
            from: self.from as int,
            to: self.to as int,
            line: self.line as int,
        }
    }
}

spec fn spots(v: Seq<Spot>) -> Seq<Place> {
    v.map_values(|s: Spot| s@)
}

fn holds_range(v: &Vec<Spot>, from: usize, to: usize) -> (r: bool)
    ensures
        r == has_range(spots(v@), from as int, to as int, v@.len() as int),
{
    let mut i: usize = 0;
    while i < v.len()
        invariant
            i <= v@.len(),
            !has_range(spots(v@), from as int, to as int, i as int),
        decreases v@.len() - i,
    {
        assert(spots(v@)[i as int] == v@[i as int]@);
        if v[i].from == from && v[i].to == to {
            return true;
        }
        i = i + 1;
    }
    false
}

fn take_names(full: &str, asked: &Vec<String>, names: &mut Vec<String>) -> (r: bool)
    ensures
        r == answers_any(full@, text::texts(asked@), asked@.len() as int),
        text::texts(final(names)@) == answered(
            text::texts(old(names)@),
            full@,
            text::texts(asked@),
            asked@.len() as int,
        ),
        !r ==> text::texts(final(names)@) == text::texts(old(names)@),
{
    let ghost ts = text::texts(asked@);
    let ghost start = text::texts(names@);
    let mut any = false;
    let mut k: usize = 0;
    while k < asked.len()
        invariant
            k <= asked@.len(),
            ts == text::texts(asked@),
            any == answers_any(full@, ts, k as int),
            text::texts(names@) == answered(start, full@, ts, k as int),
            !any ==> text::texts(names@) == start,
        decreases asked@.len() - k,
    {
        assert(ts[k as int] == asked@[k as int]@);
        let ghost before = any;
        if functions::name_answers(full, asked[k].as_str()) {
            text::add_text(names, asked[k].as_str());
            any = true;
            assert(functions::answers(full@, ts[k as int]));
        }
        assert(any == answers_any(full@, ts, k + 1)) by {
            if before {
                let j = choose|j: int| 0 <= j < k && #[trigger] functions::answers(full@, ts[j]);
                assert(functions::answers(full@, ts[j]));
            }
        }
        k = k + 1;
    }
    any
}

fn find_spots(c: &Code, asked: &Vec<String>) -> (r: (Vec<Spot>, Vec<String>))
    requires
        c.wf(),
    ensures
        spots(r.0@) == found_in(c@, text::texts(asked@)).places,
        text::texts(r.1@) == found_in(c@, text::texts(asked@)).names,
{
    let m = functions::read_matches(c);
    let t = Telling::Anywhere;
    let ghost ts = text::texts(asked@);
    let mut places: Vec<Spot> = Vec::new();
    let mut names: Vec<String> = Vec::new();
    let mut i: usize = 0;
    assert(spots(places@) =~= Seq::empty());
    assert(text::texts(names@) =~= Seq::empty());
    while i < c.steps.len()
        invariant
            c.wf(),
            m.fits(c@, c.steps@.len() as int),
            t == Telling::Anywhere,
            ts == text::texts(asked@),
            i <= c.steps@.len(),
            spots(places@) == search(c@, ts, i as int).places,
            text::texts(names@) == search(c@, ts, i as int).names,
        decreases c.steps@.len() - i,
    {
        if let Some((n, d, _k)) = functions::find_defined_nodes(c, i, &t) {
            let own = c.node_text(n);
            let full = functions::make_full_name(c, &m, d, own.as_str());
            if take_names(full.as_str(), asked, &mut names) {
                let e = functions::get_extended_range(c, d);
                if !holds_range(&places, e.start_index, e.end_index) {
                    let ghost before = places@;
                    let s = Spot {
                        full_name: full,
                        name_node: n,
                        node: d,
                        from: e.start_index,
                        to: e.end_index,
                        line: e.start_line,
                    };
                    assert(s@ == place(c@, n as int, d as int));
                    places.push(s);
                    assert(spots(places@) =~= spots(before).push(s@));
                }
            }
        }
        i = i + 1;
    }
    (places, names)
}

// ---------------------------------------------------------------------------
// What is shown of a function
// ---------------------------------------------------------------------------

/// The mathematical value of a function that was found.
pub struct Function {
    pub full_name: Seq<char>,
    pub text: Seq<char>,
    pub lines: Seq<(Seq<char>, Seq<char>)>,
    pub context: Seq<char>,
}

impl View for FoundFunction {
    type V = Function;

    open spec fn view(&self) -> Function {
        Function {
            full_name: self.full_name@,
            text: self.text@,
            lines: text::pair_texts(self.lines@),
            context: self.context@,
        }
    }
}

/// The values of a list of functions.
pub open spec fn function_values(v: Seq<FoundFunction>) -> Seq<Function> {
    v.map_values(|f: FoundFunction| f@)
}

/// The anchor of a line; empty where there is none.
pub open spec fn anchor(anchors: Seq<Seq<char>>, line: int) -> Seq<char> {
    if 0 <= line < anchors.len() {
        anchors[line]
    } else {
        Seq::empty()
    }
}

/// The lines of a text that starts on a line of the file, each with its anchor.
pub open spec fn anchored(t: Seq<char>, line: int, anchors: Seq<Seq<char>>) -> Seq<
    (Seq<char>, Seq<char>),
> {
    let ls = text::text_lines(t);
    Seq::new(ls.len(), |i: int| (ls[i], anchor(anchors, line + i)))
}

/// The context of a function under its heading, where it has one and is more than its
/// name.
pub open spec fn shown_context(
    c: Result<Seq<char>, Failure>,
    name_node: int,
    node: int,
) -> Seq<char> {
    if name_node == node {
        Seq::empty()
    } else {
        match c {
            Ok(t) => if t.len() > 0 {
                "\n--- Symbol Context ---\n"@ + t
            } else {
                Seq::empty()
            },
            Err(_) => Seq::empty(),
        }
    }
}

/// The function at a place.
pub open spec fn function_at(
    r: Reading,
    l: LanguageValue,
    ext: Seq<char>,
    p: Place,
    anchors: Seq<Seq<char>>,
) -> Function {
    let t = code::slice(r.text, p.from, p.to)->0;
    Function {
        full_name: p.full_name,
        text: t,
        lines: anchored(t, p.line, anchors),
        context: shown_context(
            symbol_context::resolved(l.grammar, ext, r.text, r.nodes, p.node, 30),
            p.name_node,
            p.node,
        ),
    }
}

/// The functions of a file that answer to requested names.
pub open spec fn functions_of(
    r: Reading,
    l: LanguageValue,
    ext: Seq<char>,
    asked: Seq<Seq<char>>,
    anchors: Seq<Seq<char>>,
) -> Seq<Function> {
    found_in(r, asked).places.map_values(|p: Place| function_at(r, l, ext, p, anchors))
}

fn make_lines(t: &str, line: usize, anchors: &Vec<String>) -> (r: Vec<(String, String)>)
    ensures
        text::pair_texts(r@) == anchored(t@, line as int, text::texts(anchors@)),
{
    let ls = text::lines(t);
    let ghost all = anchored(t@, line as int, text::texts(anchors@));
    let ghost ts = text::texts(ls@);
    let mut out: Vec<(String, String)> = Vec::new();
    let mut i: usize = 0;
    assert(text::pair_texts(out@) =~= all.take(0));
    while i < ls.len()
        invariant
            i <= ls@.len(),
            ts == text::texts(ls@),
            ts == text::text_lines(t@),
            all == anchored(t@, line as int, text::texts(anchors@)),
            text::pair_texts(out@) == all.take(i as int),
        decreases ls@.len() - i,
    {
        assert(ts[i as int] == ls@[i as int]@);
        let known: usize = anchors.len();
        let a = if line < known && i < known - line {
            assert(text::texts(anchors@)[line + i] == anchors@[line + i]@);
            anchors[line + i].clone()
        } else {
            String::new()
        };
        assert(a@ =~= anchor(text::texts(anchors@), line + i));
        let ghost before = out@;
        out.push((ls[i].clone(), a));
        assert(text::pair_texts(out@) =~= text::pair_texts(before).push(
            all[i as int],
        ));
        assert(text::pair_texts(out@) =~= all.take(i + 1));
        i = i + 1;
    }
    assert(all.take(i as int) =~= all);
    out
}

fn make_function(
    c: &Code,
    entry: &LanguageParserEntry,
    ext: &str,
    content: &str,
    s: &Spot,
    anchors: &Vec<String>,
) -> (r: FoundFunction)
    requires
        c.wf(),
        content@ == c@.text,
        code::slice(c@.text, s@.from, s@.to) is Some,
    ensures
        r@ == function_at(c@, entry@, ext@, s@, text::texts(anchors@)),
{
    let t = match c.source.cut(s.from, s.to) {
        Some(t) => t,
        None => String::new(),
    };
    let mut context = String::new();
    if s.name_node != s.node {
        let options = SymbolContextOptions {
            node: s.node,
            nodes: &c.nodes,
            source: &c.source,
            file_content: content,
            ext,
            max_context_lines: Some(30),
        };
        if let Ok(found) = symbol_context::resolve_symbol_context(&options, entry.grammar) {
            if !found.context.as_str().is_empty() {
                text::push_text(&mut context, "\n--- Symbol Context ---\n");
                text::push_text(&mut context, found.context.as_str());
            }
        }
    }
    let lines = make_lines(t.as_str(), s.line, anchors);
    let f = FoundFunction { full_name: s.full_name.clone(), text: t, lines, context };
    assert(f@.context =~= function_at(c@, entry@, ext@, s@, text::texts(anchors@)).context);
    f
}

/// The functions of a file that has been read.
pub fn find_functions(
    c: &Code,
    entry: &LanguageParserEntry,
    ext: &str,
    content: &str,
    asked: &Vec<String>,
    anchors: &Vec<String>,
) -> (r: FoundFunctions)
    requires
        c.wf(),
        content@ == c@.text,
    ensures
        function_values(r.functions@) == functions_of(
            c@,
            entry@,
            ext@,
            text::texts(asked@),
            text::texts(anchors@),
        ),
        text::texts(r.found_names@) == found_in(c@, text::texts(asked@)).names,
{
    let (places, found_names) = find_spots(c, asked);
    let ghost ps = spots(places@);
    let ghost all = functions_of(c@, entry@, ext@, text::texts(asked@), text::texts(anchors@));
    proof {
        law_found_places(c@, text::texts(asked@), c.steps@.len() as int);
    }
    let mut out: Vec<FoundFunction> = Vec::new();
    let mut i: usize = 0;
    assert(function_values(out@) =~= all.take(0));
    while i < places.len()
        invariant
            c.wf(),
            content@ == c@.text,
            i <= places@.len(),
            ps == spots(places@),
            ps == found_in(c@, text::texts(asked@)).places,
            forall|j: int|
                0 <= j < ps.len() ==> is_place(c@, text::texts(asked@), #[trigger] ps[j]),
            all == functions_of(c@, entry@, ext@, text::texts(asked@), text::texts(anchors@)),
            function_values(out@) == all.take(i as int),
        decreases places@.len() - i,
    {
        assert(ps[i as int] == places@[i as int]@);
        let f = make_function(c, entry, ext, content, &places[i], anchors);
        assert(all[i as int] == f@);
        let ghost before = out@;
        out.push(f);
        assert(function_values(out@) =~= function_values(before).push(f@));
        assert(function_values(out@) =~= all.take(i + 1));
        i = i + 1;
    }
    assert(all.take(i as int) =~= all);
    FoundFunctions { functions: out, found_names }
}

// ---------------------------------------------------------------------------
// Answers
// ---------------------------------------------------------------------------

/// The answer where no requested function was found.
pub open spec fn none_found(asked: Seq<Seq<char>>, rel_path: Seq<char>) -> Seq<char> {
    let list = text::joined(asked, ", "@);
    "None of the requested functions ("@ + list + ") were found in "@ + rel_path
        + "\n\nNote: The following functions were not found in any of the provided files: "@ + list
}

/// The mathematical value of an outcome: an answer, or functions, with the names that are
/// answered to.
pub enum Outcome {
    Answer(Seq<char>, Seq<Seq<char>>),
    Found(Seq<Function>, Seq<Seq<char>>),
}

/// The value of an outcome.
pub open spec fn search_value(s: FunctionSearch) -> Outcome {
    match s {
        FunctionSearch::Answer(a) => Outcome::Answer(
            a.formatted_content@,
            text::texts(a.found_names@),
        ),
        FunctionSearch::Found(f) => Outcome::Found(
            function_values(f.functions@),
            text::texts(f.found_names@),
        ),
    }
}

/// What asking for functions gives: an answer for a file of an unknown type, for one that
/// cannot be parsed and for one without them, the functions else. Nothing is given where
/// the tree of a file does not fit its text.
pub open spec fn functions_outcome(
    path: Seq<char>,
    rel_path: Seq<char>,
    asked: Seq<Seq<char>>,
    text: Seq<char>,
    parsers: Seq<(Seq<char>, LanguageValue)>,
    anchors: Seq<Seq<char>>,
) -> Result<Option<Outcome>, Failure> {
    let ext = text::lowercased(parser::extension(path));
    match parser::under(parsers, ext) {
        None => Ok(Some(Outcome::Answer("Unsupported file type: "@ + rel_path, Seq::empty()))),
        Some(l) => match definitions::read(l, text) {
            Err(e) => Err(e),
            Ok(None) => if syntax::parsed(l.grammar, text) == Ok::<
                Option<Seq<syntax::SyntaxNode>>,
                Seq<char>,
            >(None) {
                Ok(Some(Outcome::Answer("Could not parse file: "@ + rel_path, Seq::empty())))
            } else {
                Ok(None)
            },
            Ok(Some(r)) => {
                let fs = functions_of(r, l, ext, asked, anchors);
                if fs.len() > 0 {
                    Ok(Some(Outcome::Found(fs, found_in(r, asked).names)))
                } else {
                    Ok(Some(Outcome::Answer(none_found(asked, rel_path), Seq::empty())))
                }
            },
        },
    }
}

fn answer(t: String) -> (r: FunctionSearch)
    ensures
        search_value(r) == Outcome::Answer(t@, Seq::empty()),
{
    let found_names: Vec<String> = Vec::new();
    assert(text::texts(found_names@) =~= Seq::empty());
    FunctionSearch::Answer(GetFunctionsResult { formatted_content: t, found_names })
}

fn make_none_found(asked: &Vec<String>, rel_path: &str) -> (r: String)
    ensures
        r@ == none_found(text::texts(asked@), rel_path@),
{
    let list = text::join(asked, ", ");
    let mut t = "None of the requested functions (".to_owned();
    text::push_text(&mut t, list.as_str());
    text::push_text(&mut t, ") were found in ");
    text::push_text(&mut t, rel_path);
    text::push_text(
        &mut t,
        "\n\nNote: The following functions were not found in any of the provided files: ",
    );
    text::push_text(&mut t, list.as_str());
    t
}

/// Gets specific functions with their context and anchors; `anchors` holds the anchor of
/// each line of the file.
pub fn get_functions(
    absolute_path: &str,
    rel_path: &str,
    function_names: &Vec<String>,
    file_content: &str,
    language_parsers: &LanguageParserMap,
    anchors: &Vec<String>,
) -> (r: Result<Option<FunctionSearch>, LanguageParserError>)
    ensures
        ({
            let p = functions_outcome(
                absolute_path@,
                rel_path@,
                text::texts(function_names@),
                file_content@,
                language_parsers@,
                text::texts(anchors@),
            );
            &&& r matches Ok(Some(s)) ==> p == Ok::<Option<Outcome>, Failure>(
                Some(search_value(s)),
            )
            &&& r matches Ok(None) ==> p == Ok::<Option<Outcome>, Failure>(None)
            &&& r matches Err(e) ==> p == Err::<Option<Outcome>, Failure>(e@)
        }),
{
    let ext = parser::get_extension(absolute_path);
    let entry = match language_parsers.get(ext.as_str()) {
        Some(e) => e,
        None => {
            let mut t = "Unsupported file type: ".to_owned();
            text::push_text(&mut t, rel_path);
            return Ok(Some(answer(t)));
        },
    };
    match definitions::read_code(entry, file_content) {
        Err(e) => Err(e),
        Ok(None) => match syntax::parse(entry.grammar, file_content) {
            Ok(None) => {
                let mut t = "Could not parse file: ".to_owned();
                text::push_text(&mut t, rel_path);
                Ok(Some(answer(t)))
            },
            _ => Ok(None),
        },
        Ok(Some(c)) => {
            let found = find_functions(
                &c,
                entry,
                ext.as_str(),
                file_content,
                function_names,
                anchors,
            );
            assert(function_values(found.functions@).len() == found.functions@.len());
            if found.functions.len() > 0 {
                Ok(Some(FunctionSearch::Found(found)))
            } else {
                Ok(Some(answer(make_none_found(function_names, rel_path))))
            }
        },
    }
}

/// A function as it is shown: its name, hash, lines and context.
pub open spec fn shown_function(
    rel_path: Seq<char>,
    f: Function,
    hash: Seq<char>,
    lines: Seq<Seq<char>>,
) -> Seq<char> {
    rel_path + "::"@ + f.full_name + "\n[Function Hash: "@ + hash
        + "]\nAll Hash Anchors provided below are stable and can be used with edit_file directly.\n"@
        + text::joined(lines, "\n"@) + f.context
}

/// The functions as they are shown, one after the other.
pub open spec fn shown_functions(
    rel_path: Seq<char>,
    fs: Seq<Function>,
    shown: Seq<ShownFunction>,
) -> Seq<Seq<char>> {
    Seq::new(
        fs.len(),
        |i: int| shown_function(rel_path, fs[i], shown[i].hash@, text::texts(shown[i].lines@)),
    )
}

/// Shows functions that were found; `shown` holds for each of them its hash and its lines
/// with their anchors.
pub fn show_functions(rel_path: &str, found: FoundFunctions, shown: &Vec<ShownFunction>) -> (r:
    GetFunctionsResult)
    requires
        shown@.len() == found.functions@.len(),
    ensures
        r.formatted_content@ == text::joined(
            shown_functions(rel_path@, function_values(found.functions@), shown@),
            "\n\n---\n\n"@,
        ),
        r.found_names == found.found_names,
{
    let ghost fs = function_values(found.functions@);
    let ghost all = shown_functions(rel_path@, fs, shown@);
    let mut parts: Vec<String> = Vec::new();
    let mut i: usize = 0;
    assert(text::texts(parts@) =~= all.take(0));
    while i < found.functions.len()
        invariant
            i <= found.functions@.len(),
            shown@.len() == found.functions@.len(),
            fs == function_values(found.functions@),
            all == shown_functions(rel_path@, fs, shown@),
            text::texts(parts@) == all.take(i as int),
        decreases found.functions@.len() - i,
    {
        let f = &found.functions[i];
        assert(fs[i as int] == f@);
        let mut t = rel_path.to_owned();
        text::push_text(&mut t, "::");
        text::push_text(&mut t, f.full_name.as_str());
        text::push_text(&mut t, "\n[Function Hash: ");
        text::push_text(&mut t, shown[i].hash.as_str());
        text::push_text(
            &mut t,
            "]\nAll Hash Anchors provided below are stable and can be used with edit_file directly.\n",
        );
        let body = text::join(&shown[i].lines, "\n");
        text::push_text(&mut t, body.as_str());
        text::push_text(&mut t, f.context.as_str());
        assert(t@ =~= all[i as int]);
        let ghost before = parts@;
        parts.push(t);
        assert(text::texts(parts@) =~= text::texts(before).push(all[i as int]));
        assert(text::texts(parts@) =~= all.take(i + 1));
        i = i + 1;
    }
    assert(all.take(i as int) =~= all);
    let formatted_content = text::join(&parts, "\n\n---\n\n");
    GetFunctionsResult { formatted_content, found_names: found.found_names }
}

} // verus!
