//! Which grammar and which query belong to a file.

use crate::services::tree_sitter::queries;
use crate::services::tree_sitter::syntax;
use crate::services::tree_sitter::syntax::Grammar;
use crate::text;
use vstd::prelude::*;

verus! {

/// Error type for language parser operations.
#[derive(Debug)]
pub enum LanguageParserError {
    UnsupportedExtension(String),
    ParserCreation(String),
    QueryCreation(String),
}

/// The mathematical value of an error.
pub enum Failure {
    Unsupported(Seq<char>),
    Parser(Seq<char>),
    Query(Seq<char>),
}

impl View for LanguageParserError {
    type V = Failure;

    open spec fn view(&self) -> Failure {
        match *self {
            LanguageParserError::UnsupportedExtension(m) => Failure::Unsupported(m@),
            LanguageParserError::ParserCreation(m) => Failure::Parser(m@),
            LanguageParserError::QueryCreation(m) => Failure::Query(m@),
        }
    }
}

impl LanguageParserError {
    /// What the error says.
    pub fn message(&self) -> (r: String)
        ensures
            r@ == (match self@ {
                Failure::Unsupported(m) => "Unsupported language extension: "@ + m,
                Failure::Parser(m) => "Failed to create parser: "@ + m,
                Failure::Query(m) => "Failed to create query: "@ + m,
            }),
    {
        match self {
            LanguageParserError::UnsupportedExtension(m) => {
                let mut r = "Unsupported language extension: ".to_owned();
                text::push_text(&mut r, m.as_str());
                r
            },
            LanguageParserError::ParserCreation(m) => {
                let mut r = "Failed to create parser: ".to_owned();
                text::push_text(&mut r, m.as_str());
                r
            },
            LanguageParserError::QueryCreation(m) => {
                let mut r = "Failed to create query: ".to_owned();
                text::push_text(&mut r, m.as_str());
                r
            },
        }
    }
}

// ---------------------------------------------------------------------------
// Extensions
// ---------------------------------------------------------------------------

/// What follows the last occurrence of a character; the whole text where there is none.
pub open spec fn after_last(s: Seq<char>, c: char) -> Seq<char>
    decreases s.len(),
{
    if s.len() == 0 || s.last() == c {
        Seq::empty()
    } else {
        after_last(s.drop_last(), c).push(s.last())
    }
}

/// A path without the slashes, and the slashes with a single dot, at its end.
pub open spec fn path_end(p: Seq<char>) -> Seq<char>
    decreases p.len(),
{
    if p.len() > 0 && p.last() == '/' {
        path_end(p.drop_last())
    } else if p.len() > 1 && p.last() == '.' && p[p.len() - 2] == '/' {
        path_end(p.take(p.len() - 2))
    } else {
        p
    }
}

/// The name of a file: the last component of its path.
pub open spec fn file_name(p: Seq<char>) -> Seq<char> {
    after_last(path_end(p), '/')
}

/// The extension of a file name: what follows its last dot, where that is not its first
/// character.
pub open spec fn name_extension(name: Seq<char>) -> Seq<char> {
    let t = after_last(name, '.');
    if name == ".."@ || t.len() + 1 >= name.len() {
        Seq::empty()
    } else {
        t
    }
}

/// The extension of a path, empty where it has none.
pub open spec fn extension(p: Seq<char>) -> Seq<char> {
    name_extension(file_name(p))
}

proof fn lemma_after_last(s: Seq<char>, c: char)
    ensures
        after_last(s, c).len() <= s.len(),
        after_last(s, c) == s.skip(s.len() - after_last(s, c).len()),
    decreases s.len(),
{
    if s.len() == 0 || s.last() == c {
        assert(s.skip(s.len() as int) =~= Seq::empty());
    } else {
        lemma_after_last(s.drop_last(), c);
        let t = after_last(s.drop_last(), c);
        let k = s.len() - 1 - t.len();
        assert(s.skip(k) =~= s.drop_last().skip(k).push(s.last()));
    }
}

fn tail_after(v: &Vec<char>, c: char) -> (r: Vec<char>)
    ensures
        r@ == after_last(v@, c),
{
    let mut k: usize = v.len();
    assert(v@.take(k as int) =~= v@);
    assert(after_last(v@, c) =~= after_last(v@.take(k as int), c) + v@.skip(k as int));
    while k > 0 && v[k - 1] != c
        invariant
            k <= v@.len(),
            after_last(v@, c) == after_last(v@.take(k as int), c) + v@.skip(k as int),
        decreases k,
    {
        let ghost p = v@.take(k as int);
        assert(p.last() == v@[k - 1]);
        assert(p.drop_last() =~= v@.take(k - 1));
        assert(after_last(p, c) + v@.skip(k as int) =~= after_last(v@.take(k - 1), c) + v@.skip(
            k - 1,
        ));
        k = k - 1;
    }
    assert(k > 0 ==> v@.take(k as int).last() == v@[k - 1]);
    assert(after_last(v@, c) =~= v@.skip(k as int));
    let mut out: Vec<char> = Vec::new();
    let mut i: usize = k;
    while i < v.len()
        invariant
            k <= i <= v@.len(),
            out@ =~= v@.subrange(k as int, i as int),
        decreases v@.len() - i,
    {
        out.push(v[i]);
        i = i + 1;
    }
    assert(out@ =~= v@.skip(k as int));
    out
}

/// What follows the last occurrence of a character.
pub fn last_part(s: &str, c: char) -> (r: String)
    ensures
        r@ == after_last(s@, c),
{
    let v = text::chars_of(s);
    let t = tail_after(&v, c);
    let r = text::substring(&t, 0, t.len());
    assert(r@ =~= t@);
    r
}

/// The extension of a path, empty where it has none.
pub fn extension_of(path: &str) -> (r: String)
    ensures
        r@ == extension(path@),
{
    let mut v = text::chars_of(path);
    let mut going = true;
    while going
        invariant
            path_end(v@) == path_end(path@),
            !going ==> path_end(v@) == v@,
        decreases v@.len(),
            (if going {
                1int
            } else {
                0int
            }),
    {
        let n: usize = v.len();
        if n > 0 && v[n - 1] == '/' {
            assert(v@.drop_last() =~= v@.take(n - 1));
            v.pop();
        } else if n > 1 && v[n - 1] == '.' && v[n - 2] == '/' {
            let ghost start = v@;
            v.pop();
            v.pop();
            assert(v@ =~= start.take(n - 2));
        } else {
            going = false;
        }
    }
    let name = tail_after(&v, '/');
    let t = tail_after(&name, '.');
    proof {
        lemma_after_last(name@, '.');
        reveal_strlit("..");
        assert(name@ == ".."@ <==> name@.len() == 2 && name@[0] == '.' && name@[1] == '.') by {
            if name@.len() == 2 && name@[0] == '.' && name@[1] == '.' {
                assert(name@ =~= ".."@);
            }
        }
    }
    let dots = name.len() == 2 && name[0] == '.' && name[1] == '.';
    if dots || t.len() >= name.len() || t.len() + 1 == name.len() {
        String::new()
    } else {
        let r = text::substring(&t, 0, t.len());
        assert(r@ =~= t@);
        r
    }
}

/// Extracts the lowercase file extension without the leading dot.
pub fn get_extension(file_path: &str) -> (r: String)
    ensures
        r@ == text::lowercased(extension(file_path@)),
{
    let e = extension_of(file_path);
    text::to_lower(e.as_str())
}

// ---------------------------------------------------------------------------
// Languages
// ---------------------------------------------------------------------------

/// The grammar and the query of a language.
#[derive(Debug, Clone, Copy)]
pub struct LanguageParserEntry {
    pub grammar: Grammar,
    pub query: &'static str,
}

/// The mathematical value of an entry.
pub struct LanguageValue {
    pub grammar: Grammar,
    pub query: Seq<char>,
}

impl View for LanguageParserEntry {
    type V = LanguageValue;

    open spec fn view(&self) -> LanguageValue {
        LanguageValue { grammar: self.grammar, query: self.query@ }
    }
}

/// The language of a lower-case extension.
pub open spec fn language_for(ext: Seq<char>) -> Option<LanguageValue> {
    if ext == "js"@ || ext == "jsx"@ {
        Some(LanguageValue { grammar: Grammar::JavaScript, query: queries::JAVASCRIPT_QUERY@ })
    } else if ext == "ts"@ {
        Some(LanguageValue { grammar: Grammar::TypeScript, query: queries::TYPESCRIPT_QUERY@ })
    } else if ext == "tsx"@ {
        Some(LanguageValue { grammar: Grammar::Tsx, query: queries::TYPESCRIPT_QUERY@ })
    } else if ext == "py"@ {
        Some(LanguageValue { grammar: Grammar::Python, query: queries::PYTHON_QUERY@ })
    } else if ext == "rs"@ {
        Some(LanguageValue { grammar: Grammar::Rust, query: queries::RUST_QUERY@ })
    } else if ext == "go"@ {
        Some(LanguageValue { grammar: Grammar::Go, query: queries::GO_QUERY@ })
    } else if ext == "c"@ || ext == "h"@ {
        Some(LanguageValue { grammar: Grammar::C, query: queries::C_QUERY@ })
    } else if ext == "cpp"@ || ext == "hpp"@ {
        Some(LanguageValue { grammar: Grammar::Cpp, query: queries::CPP_QUERY@ })
    } else if ext == "cs"@ {
        Some(LanguageValue { grammar: Grammar::CSharp, query: queries::CSHARP_QUERY@ })
    } else if ext == "rb"@ {
        Some(LanguageValue { grammar: Grammar::Ruby, query: queries::RUBY_QUERY@ })
    } else if ext == "java"@ {
        Some(LanguageValue { grammar: Grammar::Java, query: queries::JAVA_QUERY@ })
    } else if ext == "php"@ {
        Some(LanguageValue { grammar: Grammar::Php, query: queries::PHP_QUERY@ })
    } else if ext == "swift"@ {
        Some(LanguageValue { grammar: Grammar::Swift, query: queries::SWIFT_QUERY@ })
    } else {
        None
    }
}

/// The grammar and the query of a lower-case extension.
pub fn find_language(ext: &str) -> (r: Option<LanguageParserEntry>)
    ensures
        r matches Some(e) ==> language_for(ext@) == Some(e@),
        r is None ==> language_for(ext@) is None,
{
    if text::same(ext, "js") || text::same(ext, "jsx") {
        Some(
            LanguageParserEntry {
                grammar: Grammar::JavaScript,
                query: queries::JAVASCRIPT_QUERY,
            },
        )
    } else if text::same(ext, "ts") {
        Some(
            LanguageParserEntry {
                grammar: Grammar::TypeScript,
                query: queries::TYPESCRIPT_QUERY,
            },
        )
    } else if text::same(ext, "tsx") {
        Some(LanguageParserEntry { grammar: Grammar::Tsx, query: queries::TYPESCRIPT_QUERY })
    } else if text::same(ext, "py") {
        Some(LanguageParserEntry { grammar: Grammar::Python, query: queries::PYTHON_QUERY })
    } else if text::same(ext, "rs") {
        Some(LanguageParserEntry { grammar: Grammar::Rust, query: queries::RUST_QUERY })
    } else if text::same(ext, "go") {
        Some(LanguageParserEntry { grammar: Grammar::Go, query: queries::GO_QUERY })
    } else if text::same(ext, "c") || text::same(ext, "h") {
        Some(LanguageParserEntry { grammar: Grammar::C, query: queries::C_QUERY })
    } else if text::same(ext, "cpp") || text::same(ext, "hpp") {
        Some(LanguageParserEntry { grammar: Grammar::Cpp, query: queries::CPP_QUERY })
    } else if text::same(ext, "cs") {
        Some(LanguageParserEntry { grammar: Grammar::CSharp, query: queries::CSHARP_QUERY })
    } else if text::same(ext, "rb") {
        Some(LanguageParserEntry { grammar: Grammar::Ruby, query: queries::RUBY_QUERY })
    } else if text::same(ext, "java") {
        Some(LanguageParserEntry { grammar: Grammar::Java, query: queries::JAVA_QUERY })
    } else if text::same(ext, "php") {
        Some(LanguageParserEntry { grammar: Grammar::Php, query: queries::PHP_QUERY })
    } else if text::same(ext, "swift") {
        Some(LanguageParserEntry { grammar: Grammar::Swift, query: queries::SWIFT_QUERY })
    } else {
        None
    }
}

/// What loading an extension gives, where `failure` is what is wrong with its query.
pub open spec fn loaded(
    ext: Seq<char>,
    language: Option<LanguageValue>,
    failure: Option<Seq<char>>,
) -> Result<LanguageValue, Failure> {
    match language {
        None => Err(Failure::Unsupported(ext)),
        Some(l) => match failure {
            Some(m) => Err(Failure::Query(m)),
            None => Ok(l),
        },
    }
}

/// What is wrong with the query of an extension.
pub open spec fn language_failure(ext: Seq<char>) -> Option<Seq<char>> {
    match language_for(ext) {
        Some(l) => syntax::query_failure(l.grammar, l.query),
        None => None,
    }
}

/// What loading an extension gives.
pub open spec fn load(ext: Seq<char>) -> Result<LanguageValue, Failure> {
    loaded(ext, language_for(ext), language_failure(ext))
}

/// What loading a language gives, where `failure` is what is wrong with its query.
pub fn finish_loading(
    ext: &str,
    language: Option<LanguageParserEntry>,
    failure: Option<String>,
) -> (r: Result<LanguageParserEntry, LanguageParserError>)
    ensures
        ({
            let l = match language {
                Some(e) => Some(e@),
                None => None,
            };
            &&& r matches Ok(e) ==> loaded(ext@, l, text::opt(failure)) == Ok::<LanguageValue, Failure>(e@)
            &&& r matches Err(e) ==> loaded(ext@, l, text::opt(failure)) == Err::<LanguageValue, Failure>(
                e@,
            )
        }),
{
    match language {
        None => Err(LanguageParserError::UnsupportedExtension(ext.to_owned())),
        Some(l) => match failure {
            Some(m) => Err(LanguageParserError::QueryCreation(m)),
            None => Ok(l),
        },
    }
}

/// Loads a single language parser for the given extension.
pub fn load_language_parser(ext: &str) -> (r: Result<LanguageParserEntry, LanguageParserError>)
    ensures
        r matches Ok(e) ==> load(ext@) == Ok::<LanguageValue, Failure>(e@),
        r matches Err(e) ==> load(ext@) == Err::<LanguageValue, Failure>(e@),
{
    let language = find_language(ext);
    let failure = match &language {
        Some(e) => syntax::check_query(e.grammar, e.query),
        None => None,
    };
    finish_loading(ext, language, failure)
}

/// Maps file extensions to loaded language parsers.
#[derive(Debug)]
pub struct LanguageParserMap {
    pub entries: Vec<(String, LanguageParserEntry)>,
}

impl View for LanguageParserMap {
    type V = Seq<(Seq<char>, LanguageValue)>;

    open spec fn view(&self) -> Seq<(Seq<char>, LanguageValue)> {
        self.entries@.map_values(|e: (String, LanguageParserEntry)| (e.0@, e.1@))
    }
}

/// The language under an extension.
pub open spec fn under(m: Seq<(Seq<char>, LanguageValue)>, ext: Seq<char>) -> Option<LanguageValue>
    decreases m.len(),
{
    if m.len() == 0 {
        None
    } else if m.last().0 == ext {
        Some(m.last().1)
    } else {
        under(m.drop_last(), ext)
    }
}

impl LanguageParserMap {
    /// The map without languages.
    pub fn new() -> (r: LanguageParserMap)
        ensures
            r@ == Seq::<(Seq<char>, LanguageValue)>::empty(),
    {
        let r = LanguageParserMap { entries: Vec::new() };
        assert(r@ =~= Seq::empty());
        r
    }

    /// The language under an extension.
    pub fn get(&self, ext: &str) -> (r: Option<&LanguageParserEntry>)
        ensures
            r matches Some(e) ==> under(self@, ext@) == Some(e@),
            r is None ==> under(self@, ext@) is None,
    {
        let mut n: usize = self.entries.len();
        assert(self@.take(n as int) =~= self@);
        while n > 0
            invariant
                n <= self.entries@.len(),
                under(self@.take(n as int), ext@) == under(self@, ext@),
            decreases n,
        {
            assert(self@.take(n as int).drop_last() =~= self@.take(n - 1));
            assert(self@.take(n as int).last() == (
                self.entries@[n - 1].0@,
                self.entries@[n - 1].1@,
            ));
            if text::same(self.entries[n - 1].0.as_str(), ext) {
                return Some(&self.entries[n - 1].1);
            }
            n = n - 1;
        }
        None
    }

    /// Puts a language under an extension.
    pub fn insert(&mut self, ext: &str, e: LanguageParserEntry)
        ensures
            final(self)@ == old(self)@.push((ext@, e@)),
    {
        self.entries.push((ext.to_owned(), e));
        assert(self@ =~= old(self)@.push((ext@, e@)));
    }
}

/// What is put under an extension is found under it, and nothing else changes.
pub proof fn law_insert_then_get(
    m: Seq<(Seq<char>, LanguageValue)>,
    ext: Seq<char>,
    l: LanguageValue,
    other: Seq<char>,
)
    ensures
        under(m.push((ext, l)), ext) == Some(l),
        other != ext ==> under(m.push((ext, l)), other) == under(m, other),
{
    assert(m.push((ext, l)).drop_last() =~= m);
}

/// The map with the language of an extension, unless it has one already.
pub open spec fn with_language(
    m: Result<Seq<(Seq<char>, LanguageValue)>, Failure>,
    ext: Seq<char>,
) -> Result<Seq<(Seq<char>, LanguageValue)>, Failure> {
    match m {
        Err(e) => Err(e),
        Ok(v) => if under(v, ext) is Some {
            Ok(v)
        } else {
            match load(ext) {
                Ok(l) => Ok(v.push((ext, l))),
                Err(e) => Err(e),
            }
        },
    }
}

/// The languages of extensions, or what is wrong with the first that cannot be loaded.
pub open spec fn load_all(exts: Seq<Seq<char>>) -> Result<Seq<(Seq<char>, LanguageValue)>, Failure>
    decreases exts.len(),
{
    if exts.len() == 0 {
        Ok(Seq::empty())
    } else {
        with_language(load_all(exts.drop_last()), exts.last())
    }
}

/// The lower-case extensions of paths.
pub open spec fn extensions(paths: Seq<&str>) -> Seq<Seq<char>> {
    paths.map_values(|p: &str| text::lowercased(extension(p@)))
}

pub proof fn lemma_load_all_fails(exts: Seq<Seq<char>>, n: int)
    requires
        0 <= n <= exts.len(),
        load_all(exts.take(n)) is Err,
    ensures
        load_all(exts) == load_all(exts.take(n)),
    decreases exts.len(),
{
    if n == exts.len() {
        assert(exts.take(n) =~= exts);
    } else {
        assert(exts.drop_last().take(n) =~= exts.take(n));
        lemma_load_all_fails(exts.drop_last(), n);
    }
}

/// Where loading succeeds, every extension of the list has its language.
pub proof fn law_every_extension_is_loaded(exts: Seq<Seq<char>>, i: int)
    requires
        0 <= i < exts.len(),
        load_all(exts) is Ok,
    ensures
        under(load_all(exts)->Ok_0, exts[i]) is Some,
        under(load_all(exts)->Ok_0, exts[i]) == language_for(exts[i]),
    decreases exts.len(),
{
    lemma_languages(exts);
    if i < exts.len() - 1 {
        law_every_extension_is_loaded(exts.drop_last(), i);
        let v = load_all(exts.drop_last())->Ok_0;
        if under(v, exts.last()) is None {
            law_insert_then_get(v, exts.last(), load(exts.last())->Ok_0, exts[i]);
        }
    } else {
        let v = load_all(exts.drop_last())->Ok_0;
        if under(v, exts.last()) is None {
            law_insert_then_get(v, exts.last(), load(exts.last())->Ok_0, exts[i]);
        }
    }
}

proof fn lemma_languages(exts: Seq<Seq<char>>)
    requires
        load_all(exts) is Ok,
    ensures
        forall|e: Seq<char>|
            #![trigger under(load_all(exts)->Ok_0, e)]
            under(load_all(exts)->Ok_0, e) is Some ==> under(load_all(exts)->Ok_0, e)
                == language_for(e),
    decreases exts.len(),
{
    if exts.len() > 0 {
        lemma_languages(exts.drop_last());
        let v = load_all(exts.drop_last())->Ok_0;
        let w = load_all(exts)->Ok_0;
        assert forall|e: Seq<char>| #![trigger under(w, e)] under(w, e) is Some implies under(w, e)
            == language_for(e) by {
            if under(v, exts.last()) is None {
                law_insert_then_get(v, exts.last(), load(exts.last())->Ok_0, e);
            }
            assert(under(v, e) is Some ==> under(v, e) == language_for(e));
        }
    }
}

/// Loads tree-sitter language parsers for the given file paths.
pub fn load_required_language_parsers(file_paths: &[&str]) -> (r: Result<
    LanguageParserMap,
    LanguageParserError,
>)
    ensures
        r matches Ok(m) ==> load_all(extensions(file_paths@)) == Ok::<
            Seq<(Seq<char>, LanguageValue)>,
            Failure,
        >(m@),
        r matches Err(e) ==> load_all(extensions(file_paths@)) == Err::<
            Seq<(Seq<char>, LanguageValue)>,
            Failure,
        >(e@),
{
    let ghost es = extensions(file_paths@);
    let mut m = LanguageParserMap::new();
    let mut i: usize = 0;
    assert(es.take(0) =~= Seq::empty());
    while i < file_paths.len()
        invariant
            i <= file_paths@.len(),
            es == extensions(file_paths@),
            load_all(es.take(i as int)) == Ok::<Seq<(Seq<char>, LanguageValue)>, Failure>(m@),
        decreases file_paths@.len() - i,
    {
        assert(es.take(i + 1).drop_last() =~= es.take(i as int));
        let ext = get_extension(file_paths[i]);
        assert(es.take(i + 1).last() == ext@);
        if m.get(ext.as_str()).is_none() {
            match load_language_parser(ext.as_str()) {
                Ok(e) => m.insert(ext.as_str(), e),
                Err(e) => {
                    proof {
                        lemma_load_all_fails(es, i + 1);
                    }
                    return Err(e);
                },
            }
        }
        i = i + 1;
    }
    assert(es.take(i as int) =~= es);
    Ok(m)
}

} // verus!
