//! The walk through a workspace that fills the index.

use crate::services::symbol_index::extract;
use crate::services::symbol_index::service;
use crate::services::symbol_index::service::SymbolIndexService;
use crate::services::symbol_index::types;
use crate::services::symbol_index::types::{Location, StoredFile, SymbolLocation};
use crate::services::tree_sitter::parser;
use crate::services::tree_sitter::parser::{LanguageParserMap, LanguageValue};
use crate::text;
use vstd::prelude::*;

verus! {

/// The number of files that are written to the index together.
pub const INDEX_BATCH_SIZE: usize = 64;

/// A file that may be indexed.
#[derive(Debug, Clone)]
pub struct IndexCandidate {
    pub absolute_path: String,
    pub relative_path: String,
    pub mtime: u64,
    pub size: u64,
}

/// A name of a thread: letters and digits of ASCII stay, the rest becomes hyphens, and
/// 48 characters are kept.
pub open spec fn thread_name(root: Seq<char>) -> Seq<char> {
    let all = root.map_values(
        |c: char|
            if is_plain(c) {
                c
            } else {
                '-'
            },
    );
    if all.len() <= 48 {
        all
    } else {
        all.take(48)
    }
}

/// A letter or a digit of ASCII.
pub open spec fn is_plain(c: char) -> bool {
    'a' <= c <= 'z' || 'A' <= c <= 'Z' || '0' <= c <= '9'
}

/// A name of a thread.
pub fn sanitize_thread_name(project_root: &str) -> (r: String)
    ensures
        r@ == thread_name(project_root@),
{
    let v = text::chars_of(project_root);
    let mut out = String::new();
    let mut i: usize = 0;
    while i < v.len() && i < 48
        invariant
            v@ == project_root@,
            i <= v@.len(),
            i <= 48,
            out@.len() == i,
            forall|k: int|
                0 <= k < i ==> #[trigger] out@[k] == (if is_plain(v@[k]) {
                    v@[k]
                } else {
                    '-'
                }),
        decreases v@.len() - i,
    {
        let c = v[i];
        let kept = ('a' <= c && c <= 'z') || ('A' <= c && c <= 'Z') || ('0' <= c && c <= '9');
        text::push_char(
            &mut out,
            if kept {
                c
            } else {
                '-'
            },
        );
        i = i + 1;
    }
    assert(out@ =~= thread_name(project_root@));
    out
}

/// Whether a walk goes on into an entry: not into hidden ones, nor into directories that
/// are excluded.
pub fn walks_into(name: &str, is_dir: bool, is_excluded: bool) -> (r: bool)
    ensures
        r == (!text::begins(name@, "."@) && !(is_dir && is_excluded)),
{
    !text::starts_with(name, ".") && !(is_dir && is_excluded)
}

/// Whether an entry is a candidate: a file that is not too large.
pub fn is_candidate(is_file: bool, size: u64, max_size: u64) -> (r: bool)
    ensures
        r == (is_file && size <= max_size),
{
    is_file && size <= max_size
}

// ---------------------------------------------------------------------------
// Languages
// ---------------------------------------------------------------------------

/// The extension of a candidate.
pub open spec fn extension_of(c: IndexCandidate) -> Seq<char> {
    text::lowercased(parser::extension(c.absolute_path@))
}

/// The languages of the extensions of candidates, each loaded once; those that cannot be
/// loaded are left out.
pub open spec fn languages(v: Seq<IndexCandidate>) -> Seq<(Seq<char>, LanguageValue)>
    decreases v.len(),
{
    if v.len() == 0 {
        Seq::empty()
    } else {
        let rest = languages(v.drop_last());
        let ext = extension_of(v.last());
        if parser::under(rest, ext) is Some {
            rest
        } else {
            match parser::load(ext) {
                Ok(l) => rest.push((ext, l)),
                Err(_) => rest,
            }
        }
    }
}

/// The languages of the extensions of candidates.
pub fn load_parsers_for_candidates(candidates: &Vec<IndexCandidate>) -> (r: LanguageParserMap)
    ensures
        r@ == languages(candidates@),
{
    let mut m = LanguageParserMap::new();
    let mut tried: Vec<String> = Vec::new();
    let mut i: usize = 0;
    assert(text::texts(tried@) =~= Seq::empty());
    while i < candidates.len()
        invariant
            i <= candidates@.len(),
            m@ == languages(candidates@.take(i as int)),
            forall|t: Seq<char>| #[trigger]
                text::texts(tried@).contains(t) ==> parser::under(m@, t) is Some || parser::load(
                    t,
                ) is Err,
        decreases candidates@.len() - i,
    {
        assert(candidates@.take(i + 1).drop_last() =~= candidates@.take(i as int));
        let ext = parser::get_extension(candidates[i].absolute_path.as_str());
        let ghost before = text::texts(tried@);
        let ghost held = m@;
        if !text::holds(&tried, ext.as_str()) {
            if m.get(ext.as_str()).is_none() {
                if let Ok(e) = parser::load_language_parser(ext.as_str()) {
                    m.insert(ext.as_str(), e);
                    proof {
                        parser::law_insert_then_get(held, ext@, e@, ext@);
                    }
                }
            }
            text::add_text(&mut tried, ext.as_str());
        }
        assert forall|t: Seq<char>| #[trigger] text::texts(tried@).contains(t) implies parser::under(
            m@,
            t,
        ) is Some || parser::load(t) is Err by {
            if before.contains(t) {
                if m@ != held {
                    parser::law_insert_then_get(held, ext@, m@.last().1, t);
                }
            } else {
                assert(t == ext@) by {
                    let k = choose|k: int|
                        0 <= k < text::texts(tried@).len() && text::texts(tried@)[k] == t;
                    if k < before.len() {
                        assert(before[k] == t);
                    }
                }
            }
        }
        i = i + 1;
    }
    assert(candidates@.take(i as int) =~= candidates@);
    m
}

/// Whether a candidate has a language.
pub fn has_language(c: &IndexCandidate, parsers: &LanguageParserMap) -> (r: bool)
    ensures
        r == (parser::under(parsers@, extension_of(*c)) is Some),
{
    let ext = parser::get_extension(c.absolute_path.as_str());
    parsers.get(ext.as_str()).is_some()
}

// ---------------------------------------------------------------------------
// Batches
// ---------------------------------------------------------------------------

/// A walk: the files that were read and are not yet in the index.
pub struct InitialWalk {
    pub pending: Vec<(String, u64, u64, Vec<SymbolLocation>)>,
}

impl InitialWalk {
    /// Fewer files are pending than are written together.
    pub open spec fn wf(&self) -> bool {
        self.pending@.len() < INDEX_BATCH_SIZE
    }

    /// Begins a walk over a number of candidates. Where the database holds files, the
    /// status shows them on; else the walk counts as begun.
    pub fn begin(index: &mut SymbolIndexService, candidate_count: usize) -> (r: InitialWalk)
        ensures
            r.wf(),
            r.pending@.len() == 0,
            final(index).files == old(index).files,
            final(index).same_place(old(index)),
            final(index).status == (if old(index).has_stored_files() {
                types::SymbolIndexStatus {
                    workspace_file_count: candidate_count,
                    ..old(index).status
                }
            } else {
                types::SymbolIndexStatus {
                    workspace_file_count: candidate_count,
                    indexed_file_count: 0,
                    initial_walk_complete: false,
                    ..old(index).status
                }
            }),
    {
        if index.has_usable_persisted_index() {
            index.status.workspace_file_count = candidate_count;
        } else {
            index.begin_initial_walk(candidate_count);
        }
        InitialWalk { pending: Vec::new() }
    }

    /// Whether a candidate is to be read: its time or its size is not the known one.
    /// `stored` is what the database knows of it.
    pub fn wants(index: &SymbolIndexService, c: &IndexCandidate, stored: Option<StoredFile>) -> (r:
        bool)
        ensures
            r == !index.knows_file(c.relative_path@, c.mtime, c.size, stored),
    {
        !index.has_matching_metadata(c.relative_path.as_str(), c.mtime, c.size, stored)
    }

    /// Takes a file in that was read. Gives the files that are to be written now, where
    /// there are enough of them.
    pub fn add(&mut self, c: &IndexCandidate, symbols: Vec<SymbolLocation>) -> (r: Option<
        Vec<(String, u64, u64, Vec<SymbolLocation>)>,
    >)
        requires
            old(self).wf(),
        ensures
            final(self).wf(),
            r is Some <==> old(self).pending@.len() + 1 == INDEX_BATCH_SIZE,
            r matches Some(v) ==> final(self).pending@.len() == 0 && v@.len() == INDEX_BATCH_SIZE
                && v@.drop_last() == old(self).pending@ && is_entry(v@.last(), *c, symbols),
            r is None ==> final(self).pending@.len() == old(self).pending@.len() + 1
                && final(self).pending@.drop_last() == old(self).pending@ && is_entry(
                final(self).pending@.last(),
                *c,
                symbols,
            ),
    {
        let ghost before = self.pending@;
        self.pending.push((c.relative_path.clone(), c.mtime, c.size, symbols));
        assert(self.pending@.drop_last() =~= before);
        if self.pending.len() == INDEX_BATCH_SIZE {
            let mut batch: Vec<(String, u64, u64, Vec<SymbolLocation>)> = Vec::new();
            std::mem::swap(&mut self.pending, &mut batch);
            Some(batch)
        } else {
            None
        }
    }

    /// Takes a file in with its content: its symbols are parsed and it is pending, unless it
    /// has no language or cannot be parsed. Gives the files that are to be written now.
    pub fn take(&mut self, c: &IndexCandidate, content: &str, parsers: &LanguageParserMap) -> (r:
        Result<Option<Vec<(String, u64, u64, Vec<SymbolLocation>)>>, String>)
        requires
            old(self).wf(),
        ensures
            final(self).wf(),
            match extract::parsed_symbols(c.absolute_path@, content@, parsers@) {
                Err(m) => r matches Err(e) && e@ == m && *final(self) == *old(self),
                Ok(None) => r matches Ok(None) && *final(self) == *old(self),
                Ok(Some(symbols)) => {
                    &&& r is Ok
                    &&& r->Ok_0 is Some <==> old(self).pending@.len() + 1 == INDEX_BATCH_SIZE
                    &&& r->Ok_0 matches Some(v) ==> final(self).pending@.len() == 0 && v@.len()
                        == INDEX_BATCH_SIZE && v@.drop_last() == old(self).pending@ && holds(
                        v@.last(),
                        *c,
                        symbols,
                    )
                    &&& r->Ok_0 is None ==> final(self).pending@.len() == old(self).pending@.len()
                        + 1 && final(self).pending@.drop_last() == old(self).pending@ && holds(
                        final(self).pending@.last(),
                        *c,
                        symbols,
                    )
                },
            },
    {
        match extract::parse_symbols_with_parsers(c.absolute_path.as_str(), content, parsers) {
            Err(e) => Err(e),
            Ok(None) => Ok(None),
            Ok(Some(symbols)) => Ok(self.add(c, symbols)),
        }
    }

    /// The files that are left at the end of the walk.
    pub fn rest(self) -> (r: Vec<(String, u64, u64, Vec<SymbolLocation>)>)
        ensures
            r == self.pending,
    {
        self.pending
    }

    /// Ends a walk: only the candidates stay in the index, and the walk counts as complete.
    pub fn finish(index: &mut SymbolIndexService, candidates: &Vec<IndexCandidate>)
        requires
            old(index).wf(),
        ensures
            final(index).wf(),
            final(index).same_place(old(index)),
            final(index).index() == service::kept(old(index).index(), candidate_paths(candidates@)),
            final(index).status.workspace_file_count == candidates@.len(),
            final(index).status.indexed_file_count == final(index).file_count(),
            final(index).status.initial_walk_complete,
            final(index).status.last_indexed_at is Some,
            final(index).status.high_water_mtime == old(index).status.high_water_mtime,
    {
        let mut paths: Vec<String> = Vec::new();
        let ghost ps = candidate_paths(candidates@);
        let mut i: usize = 0;
        assert(text::texts(paths@) =~= ps.take(0));
        while i < candidates.len()
            invariant
                i <= candidates@.len(),
                ps == candidate_paths(candidates@),
                text::texts(paths@) == ps.take(i as int),
            decreases candidates@.len() - i,
        {
            let ghost before = paths@;
            paths.push(candidates[i].relative_path.clone());
            assert(text::texts(paths@) =~= text::texts(before).push(ps[i as int]));
            assert(text::texts(paths@) =~= ps.take(i + 1));
            i = i + 1;
        }
        assert(ps.take(i as int) =~= ps);
        index.remove_missing_files(&paths);
        index.finish_initial_walk(candidates.len());
    }
}

/// The paths of candidates.
pub open spec fn candidate_paths(v: Seq<IndexCandidate>) -> Seq<Seq<char>> {
    v.map_values(|c: IndexCandidate| c.relative_path@)
}

/// An entry of a batch holds a candidate with symbols.
pub open spec fn holds(
    e: (String, u64, u64, Vec<SymbolLocation>),
    c: IndexCandidate,
    symbols: Seq<Location>,
) -> bool {
    e.0@ == c.relative_path@ && e.1 == c.mtime && e.2 == c.size && types::locations(e.3@) == symbols
}

/// An entry of a batch is a candidate with its symbols.
pub open spec fn is_entry(
    e: (String, u64, u64, Vec<SymbolLocation>),
    c: IndexCandidate,
    symbols: Vec<SymbolLocation>,
) -> bool {
    e.0@ == c.relative_path@ && e.1 == c.mtime && e.2 == c.size && e.3 == symbols
}

/// The entry for a file that was written: nothing where it is too large or has no
/// language.
pub fn prepare_index_entry(
    rel_path: &str,
    mtime: u64,
    size: u64,
    max_size: u64,
    symbols: Option<Vec<SymbolLocation>>,
) -> (r: Option<(String, u64, u64, Vec<SymbolLocation>)>)
    ensures
        r is Some <==> size <= max_size && symbols is Some,
        r matches Some(e) ==> e.0@ == rel_path@ && e.1 == mtime && e.2 == size && e.3
            == symbols->0,
{
    if size > max_size {
        return None;
    }
    match symbols {
        Some(v) => Some((rel_path.to_owned(), mtime, size, v)),
        None => None,
    }
}

} // verus!
