//! The symbols of a file.

use crate::services::symbol_index::types;
use crate::services::symbol_index::types::{Location, SymbolLocation, SymbolType};
use crate::services::tree_sitter::code::{Code, Reading};
use crate::services::tree_sitter::definitions;
use crate::services::tree_sitter::parser;
use crate::services::tree_sitter::parser::{
    Failure, LanguageParserError, LanguageParserMap, LanguageValue,
};
use crate::text;
use vstd::prelude::*;

verus! {

/// A capture of the name of a definition or of a reference.
pub open spec fn names_symbol(name: Seq<char>) -> bool {
    text::begins(name, "name.reference"@) || text::has(name, "name.definition"@)
}

/// The symbol that a step captures.
pub open spec fn symbol(r: Reading, i: int) -> Location {
    let n = r.nodes[r.node(i)];
    Location {
        path: None,
        name: r.node_text(r.node(i)),
        start_line: n.start_row as usize,
        start_column: n.start_column as usize,
        end_line: n.end_row as usize,
        end_column: n.end_column as usize,
        symbol_type: if text::has(r.name(i), "name.definition"@) {
            SymbolType::Definition
        } else {
            SymbolType::Reference
        },
        kind: Some(parser::after_last(r.name(i), '.')),
    }
}

/// The symbols that the first `k` steps capture, in order.
pub open spec fn symbols(r: Reading, k: int) -> Seq<Location>
    decreases k,
{
    if k <= 0 {
        Seq::empty()
    } else if names_symbol(r.name(k - 1)) {
        symbols(r, k - 1).push(symbol(r, k - 1))
    } else {
        symbols(r, k - 1)
    }
}

/// The symbols of a file that has been read.
pub fn read_symbols(c: &Code) -> (r: Vec<SymbolLocation>)
    requires
        c.wf(),
    ensures
        types::locations(r@) == symbols(c@, c.steps@.len() as int),
{
    let mut out: Vec<SymbolLocation> = Vec::new();
    let mut k: usize = 0;
    assert(types::locations(out@) =~= Seq::empty());
    while k < c.steps.len()
        invariant
            c.wf(),
            k <= c.steps@.len(),
            types::locations(out@) == symbols(c@, k as int),
        decreases c.steps@.len() - k,
    {
        let name = c.name(k);
        let defines = text::contains(name, "name.definition");
        if defines || text::starts_with(name, "name.reference") {
            let n: usize = c.node(k);
            assert(c@.nodes[n as int] == c.nodes@[n as int]@);
            let s = SymbolLocation {
                path: None,
                name: c.node_text(n),
                start_line: c.nodes[n].start_row,
                start_column: c.nodes[n].start_column,
                end_line: c.nodes[n].end_row,
                end_column: c.nodes[n].end_column,
                symbol_type: if defines {
                    SymbolType::Definition
                } else {
                    SymbolType::Reference
                },
                kind: Some(parser::last_part(name, '.')),
            };
            assert(s@ == symbol(c@, k as int));
            let ghost before = out@;
            out.push(s);
            assert(types::locations(out@) =~= types::locations(before).push(s@));
        }
        k = k + 1;
    }
    out
}

/// What extracting the symbols of a text gives.
pub open spec fn extracted(
    path: Seq<char>,
    text: Seq<char>,
    parsers: Seq<(Seq<char>, LanguageValue)>,
) -> Result<Seq<Location>, Seq<char>> {
    match parser::under(parsers, text::lowercased(parser::extension(path))) {
        None => Ok(Seq::empty()),
        Some(l) => match definitions::read(l, text) {
            Ok(Some(r)) => Ok(symbols(r, r.steps.len() as int)),
            Ok(None) => Err("Failed to parse"@),
            Err(Failure::Parser(m)) => Err("Language error: "@ + m),
            Err(Failure::Query(m)) => Err(m),
            Err(Failure::Unsupported(m)) => Err(m),
        },
    }
}

/// Extract symbols from file content for indexing. A file whose extension has no language
/// has none; the message says what is wrong with a grammar or a text.
pub fn extract_symbols_for_indexing(
    path: &str,
    content: &str,
    language_parsers: &LanguageParserMap,
) -> (r: Result<Vec<SymbolLocation>, String>)
    ensures
        r matches Ok(v) ==> extracted(path@, content@, language_parsers@) == Ok::<
            Seq<Location>,
            Seq<char>,
        >(types::locations(v@)),
        r matches Err(e) ==> extracted(path@, content@, language_parsers@) == Err::<
            Seq<Location>,
            Seq<char>,
        >(e@),
{
    let ext = parser::get_extension(path);
    match language_parsers.get(ext.as_str()) {
        None => {
            let none: Vec<SymbolLocation> = Vec::new();
            assert(types::locations(none@) =~= Seq::empty());
            Ok(none)
        },
        Some(entry) => match definitions::read_code(entry, content) {
            Ok(Some(c)) => Ok(read_symbols(&c)),
            Ok(None) => Err("Failed to parse".to_owned()),
            Err(LanguageParserError::ParserCreation(m)) => {
                let mut t = "Language error: ".to_owned();
                text::push_text(&mut t, m.as_str());
                Err(t)
            },
            Err(LanguageParserError::QueryCreation(m)) => Err(m),
            Err(LanguageParserError::UnsupportedExtension(m)) => Err(m),
        },
    }
}

/// What parsing the symbols of a file gives: nothing for a file without a language.
pub open spec fn parsed_symbols(
    path: Seq<char>,
    text: Seq<char>,
    parsers: Seq<(Seq<char>, LanguageValue)>,
) -> Result<Option<Seq<Location>>, Seq<char>> {
    if parser::under(parsers, text::lowercased(parser::extension(path))) is None {
        Ok(None)
    } else {
        match extracted(path, text, parsers) {
            Ok(v) => Ok(Some(v)),
            Err(e) => Err(e),
        }
    }
}

/// The value of an outcome of parsing symbols.
pub open spec fn parsed_value(r: Result<Option<Vec<SymbolLocation>>, String>) -> Result<
    Option<Seq<Location>>,
    Seq<char>,
> {
    match r {
        Ok(Some(v)) => Ok(Some(types::locations(v@))),
        Ok(None) => Ok(None),
        Err(e) => Err(e@),
    }
}

/// Parses the symbols of a file with loaded languages.
pub fn parse_symbols_with_parsers(path: &str, content: &str, parsers: &LanguageParserMap) -> (r:
    Result<Option<Vec<SymbolLocation>>, String>)
    ensures
        parsed_value(r) == parsed_symbols(path@, content@, parsers@),
{
    let ext = parser::get_extension(path);
    if parsers.get(ext.as_str()).is_none() {
        return Ok(None);
    }
    match extract_symbols_for_indexing(path, content, parsers) {
        Ok(v) => Ok(Some(v)),
        Err(e) => Err(e),
    }
}

/// Parses the symbols of a file: nothing where its language cannot be loaded.
pub fn parse_symbols(path: &str, content: &str) -> (r: Result<Option<Vec<SymbolLocation>>, String>)
    ensures
        parsed_value(r) == (match parser::load_all(
            seq![text::lowercased(parser::extension(path@))],
        ) {
            Ok(parsers) => parsed_symbols(path@, content@, parsers),
            Err(_) => Ok(None),
        }),
{
    let paths: [&str; 1] = [path];
    assert(parser::extensions(paths@) =~= seq![text::lowercased(parser::extension(path@))]);
    match parser::load_required_language_parsers(paths.as_slice()) {
        Ok(parsers) => parse_symbols_with_parsers(path, content, &parsers),
        Err(_) => Ok(None),
    }
}

} // verus!
