//! What the symbol index is for: every captured name is a symbol, every indexed symbol is
//! found by its name, and what is written of a symbol can be read back.

use crate::services::symbol_index::db;
use crate::services::symbol_index::db::{Bound, Change};
use crate::services::symbol_index::extract;
use crate::services::symbol_index::service;
use crate::services::symbol_index::service::SymbolIndexService;
use crate::services::symbol_index::types;
use crate::services::symbol_index::types::{
    Entry, Location, StoredFile, SymbolLocation, SymbolType,
};
use crate::services::symbol_index::walk;
use crate::services::symbol_index::walk::IndexCandidate;
use crate::services::tree_sitter::code::Reading;
use crate::services::tree_sitter::definitions;
use crate::services::tree_sitter::parser;
use crate::services::tree_sitter::parser::LanguageValue;
use crate::text;
use vstd::prelude::*;

verus! {

// ---------------------------------------------------------------------------
// Extraction
// ---------------------------------------------------------------------------

/// The name stands somewhere in a capture's name.
pub open spec fn holds_definition(name: Seq<char>) -> bool {
    exists|i: int| #[trigger] text::matches_at(name, "name.definition"@, i)
}

/// A capture's name begins with the name.
pub open spec fn starts_reference(name: Seq<char>) -> bool {
    name.len() >= 14 && name.take(14) == "name.reference"@
}

/// A step that captures a symbol.
pub open spec fn is_symbol(r: Reading, i: int) -> bool {
    starts_reference(r.name(i)) || holds_definition(r.name(i))
}

/// The number of symbols among the first `n` steps.
pub open spec fn symbols_before(r: Reading, n: int) -> int
    decreases n,
{
    if n <= 0 {
        0
    } else {
        symbols_before(r, n - 1) + (if is_symbol(r, n - 1) {
            1int
        } else {
            0
        })
    }
}

/// A symbol is what a step captures: it has the text of the node as its name, stands where
/// the node stands, and is a definition where the capture is one, a reference else. Its kind
/// is what follows the last dot.
pub open spec fn shows(s: Location, r: Reading, i: int) -> bool {
    let n = r.nodes[r.node(i)];
    &&& s.path is None
    &&& s.name == r.node_text(r.node(i))
    &&& (0 <= n.start_row <= usize::MAX ==> s.start_line == n.start_row)
    &&& (0 <= n.start_column <= usize::MAX ==> s.start_column == n.start_column)
    &&& (0 <= n.end_row <= usize::MAX ==> s.end_line == n.end_row)
    &&& (0 <= n.end_column <= usize::MAX ==> s.end_column == n.end_column)
    &&& s.symbol_type is Definition <==> holds_definition(r.name(i))
    &&& s.kind is Some && is_last_part(s.kind->0, r.name(i))
}

/// What follows the last dot of a name, and all of a name without one.
pub open spec fn is_last_part(part: Seq<char>, name: Seq<char>) -> bool {
    &&& !part.contains('.')
    &&& part == name || exists|head: Seq<char>| name == #[trigger] (head + seq!['.'] + part)
}

proof fn lemma_last_part(s: Seq<char>)
    ensures
        is_last_part(parser::after_last(s, '.'), s),
    decreases s.len(),
{
    if s.len() > 0 && s.last() != '.' {
        let p = s.drop_last();
        lemma_last_part(p);
        let part = parser::after_last(p, '.');
        let all = parser::after_last(s, '.');
        assert(all == part.push(s.last()));
        if part != p {
            let head = choose|head: Seq<char>| p == #[trigger] (head + seq!['.'] + part);
            assert(p == head + seq!['.'] + part);
            assert(s =~= p.push(s.last()));
            assert(s =~= head + seq!['.'] + all);
        } else {
            assert(s =~= all);
        }
        assert(!all.contains('.')) by {
            if all.contains('.') {
                let k = choose|k: int| 0 <= k < all.len() && all[k] == '.';
                assert(part[k] == '.');
            }
        }
    } else if s.len() > 0 {
        let part = parser::after_last(s, '.');
        assert(part =~= Seq::<char>::empty());
        assert(s =~= s.drop_last() + seq!['.'] + part);
    } else {
        assert(s =~= Seq::empty());
    }
}

/// The symbols are in one-to-one correspondence, in order, with the captures of names: each
/// capture whose name begins with `name.reference` or holds `name.definition` is a symbol
/// with the node's text and position, and there are no others.
pub proof fn law_symbols_are_the_captured_names(r: Reading, k: int)
    requires
        0 <= k <= r.steps.len(),
    ensures
        extract::symbols(r, k).len() == symbols_before(r, k),
        forall|i: int|
            0 <= i < k && #[trigger] is_symbol(r, i) ==> 0 <= symbols_before(r, i)
                < extract::symbols(r, k).len() && shows(
                extract::symbols(r, k)[symbols_before(r, i)],
                r,
                i,
            ),
    decreases k,
{
    if k > 0 {
        law_symbols_are_the_captured_names(r, k - 1);
        lemma_last_part(r.name(k - 1));
        reveal_strlit("name.reference");
        let name = r.name(k - 1);
        assert(text::begins(name, "name.reference"@) == starts_reference(name)) by {
            if name.len() >= 14 {
                assert(name.subrange(0, 14) =~= name.take(14));
            }
        }
        let few = extract::symbols(r, k - 1);
        let all = extract::symbols(r, k);
        assert forall|i: int| 0 <= i < k && #[trigger] is_symbol(r, i) implies 0 <= symbols_before(
            r,
            i,
        ) < all.len() && shows(all[symbols_before(r, i)], r, i) by {
            if i < k - 1 {
                assert(all[symbols_before(r, i)] == few[symbols_before(r, i)]);
            }
        }
    }
}

/// The symbols of a file are those of its reading; one whose extension has no language has
/// none, and one that cannot be read is an error.
pub proof fn law_extraction_gives_the_symbols(
    path: Seq<char>,
    text: Seq<char>,
    parsers: Seq<(Seq<char>, LanguageValue)>,
)
    ensures
        ({
            let language = parser::under(parsers, text::lowercased(parser::extension(path)));
            let got = extract::extracted(path, text, parsers);
            let parsed = extract::parsed_symbols(path, text, parsers);
            &&& language is None ==> got == Ok::<Seq<Location>, Seq<char>>(Seq::empty())
            &&& language is None ==> parsed == Ok::<Option<Seq<Location>>, Seq<char>>(None)
            &&& language is Some ==> ({
                let read = definitions::read(language->0, text);
                &&& read is Ok && read->Ok_0 is Some ==> got is Ok && got->Ok_0.len()
                    == symbols_before(read->Ok_0->0, (read->Ok_0->0).steps.len() as int)
                    && got->Ok_0 == extract::symbols(
                    read->Ok_0->0,
                    (read->Ok_0->0).steps.len() as int,
                ) && parsed == Ok::<Option<Seq<Location>>, Seq<char>>(Some(got->Ok_0))
                &&& read is Ok && read->Ok_0 is None ==> got is Err && parsed is Err
                &&& read is Err ==> got is Err && parsed is Err
            })
        }),
{
    if let Some(l) = parser::under(parsers, text::lowercased(parser::extension(path))) {
        if let Ok(Some(r)) = definitions::read(l, text) {
            law_symbols_are_the_captured_names(r, r.steps.len() as int);
        }
    }
}

// ---------------------------------------------------------------------------
// Lookup
// ---------------------------------------------------------------------------

/// The symbol is asked for: it has the name, and the type where one is asked for.
pub open spec fn is_asked_for(s: Location, name: Seq<char>, kind: Option<SymbolType>) -> bool {
    s.name == name && (kind is Some ==> s.symbol_type == kind->0)
}

/// The number of symbols of a file that are asked for, among the first `n`.
pub open spec fn asked_before(
    v: Seq<Location>,
    name: Seq<char>,
    kind: Option<SymbolType>,
    n: int,
) -> int
    decreases n,
{
    if n <= 0 {
        0
    } else {
        asked_before(v, name, kind, n - 1) + (if is_asked_for(v[n - 1], name, kind) {
            1int
        } else {
            0
        })
    }
}

proof fn lemma_asked_before(v: Seq<Location>, name: Seq<char>, kind: Option<SymbolType>, n: int)
    requires
        0 <= n < v.len(),
    ensures
        asked_before(v.drop_last(), name, kind, n) == asked_before(v, name, kind, n),
        0 <= asked_before(v, name, kind, n),
    decreases n,
{
    if n > 0 {
        lemma_asked_before(v, name, kind, n - 1);
    }
}

/// The symbols of a file that are asked for, and no others, are found in order, each as it
/// is and with the path of the file.
pub proof fn law_file_gives_what_is_asked_for(
    path: Seq<char>,
    v: Seq<Location>,
    name: Seq<char>,
    kind: Option<SymbolType>,
)
    ensures
        service::matching(path, v, name, kind).len() == asked_before(v, name, kind, v.len() as int),
        forall|i: int|
            0 <= i < v.len() && is_asked_for(#[trigger] v[i], name, kind) ==> 0 <= asked_before(
                v,
                name,
                kind,
                i,
            ) < service::matching(path, v, name, kind).len() && service::matching(
                path,
                v,
                name,
                kind,
            )[asked_before(v, name, kind, i)] == (Location { path: Some(path), ..v[i] }),
    decreases v.len(),
{
    if v.len() > 0 {
        let p = v.drop_last();
        law_file_gives_what_is_asked_for(path, p, name, kind);
        lemma_asked_before(v, name, kind, p.len() as int);
        let few = service::matching(path, p, name, kind);
        let all = service::matching(path, v, name, kind);
        assert forall|i: int| 0 <= i < v.len() && is_asked_for(#[trigger] v[i], name, kind) implies 0
            <= asked_before(v, name, kind, i) < all.len() && all[asked_before(v, name, kind, i)]
            == (Location { path: Some(path), ..v[i] }) by {
            lemma_asked_before(v, name, kind, i);
            if i < p.len() {
                assert(p[i] == v[i]);
                assert(all[asked_before(v, name, kind, i)] == few[asked_before(p, name, kind, i)]);
            }
        }
    }
}

/// The number of symbols of all files that are asked for.
pub open spec fn asked_in(
    v: Seq<(Seq<char>, Entry)>,
    name: Seq<char>,
    kind: Option<SymbolType>,
) -> int
    decreases v.len(),
{
    if v.len() == 0 {
        0
    } else {
        asked_in(v.drop_last(), name, kind) + asked_before(
            v.last().1.symbols,
            name,
            kind,
            v.last().1.symbols.len() as int,
        )
    }
}

/// Without a limit a lookup gives as many symbols as are asked for in all files, and a limit
/// that they do not exceed leaves nothing out.
pub proof fn law_lookup_counts(
    v: Seq<(Seq<char>, Entry)>,
    name: Seq<char>,
    kind: Option<SymbolType>,
    limit: usize,
)
    ensures
        service::found(v, name, kind, None).len() == asked_in(v, name, kind),
        asked_in(v, name, kind) <= limit ==> service::found(v, name, kind, Some(limit))
            == service::found(v, name, kind, None),
        asked_in(v, name, kind) > limit ==> service::found(v, name, kind, Some(limit)).len()
            >= limit,
    decreases v.len(),
{
    if v.len() > 0 {
        law_lookup_counts(v.drop_last(), name, kind, limit);
        law_file_gives_what_is_asked_for(v.last().0, v.last().1.symbols, name, kind);
    }
}

/// Every symbol that a lookup gives is one of a file, as it is and with the path of the
/// file, and is asked for.
pub proof fn law_lookup_gives_only_what_is_asked_for(
    v: Seq<(Seq<char>, Entry)>,
    name: Seq<char>,
    kind: Option<SymbolType>,
    limit: Option<usize>,
    k: int,
)
    requires
        0 <= k < service::found(v, name, kind, limit).len(),
    ensures
        exists|f: int, i: int|
            0 <= f < v.len() && 0 <= i < v[f].1.symbols.len() && is_asked_for(
                #[trigger] v[f].1.symbols[i],
                name,
                kind,
            ) && service::found(v, name, kind, limit)[k] == (Location {
                path: Some(v[f].0),
                ..v[f].1.symbols[i]
            }),
    decreases v.len(),
{
    let p = v.drop_last();
    let rest = service::found(p, name, kind, limit);
    let all = service::found(v, name, kind, limit);
    if k < rest.len() {
        law_lookup_gives_only_what_is_asked_for(p, name, kind, limit, k);
        let (f, i) = choose|f: int, i: int|
            0 <= f < p.len() && 0 <= i < p[f].1.symbols.len() && is_asked_for(
                #[trigger] p[f].1.symbols[i],
                name,
                kind,
            ) && rest[k] == (Location { path: Some(p[f].0), ..p[f].1.symbols[i] });
        assert(v[f].1.symbols[i] == p[f].1.symbols[i]);
    } else {
        let own = service::matching(v.last().0, v.last().1.symbols, name, kind);
        lemma_found_in_file(v.last().0, v.last().1.symbols, name, kind, k - rest.len());
        let s = v.last().1.symbols;
        let i = choose|i: int|
            0 <= i < s.len() && is_asked_for(#[trigger] s[i], name, kind) && own[k - rest.len()]
                == (Location { path: Some(v.last().0), ..s[i] });
        let f = v.len() - 1;
        assert(v[f].1.symbols[i] == s[i]);
        assert(all[k] == own[k - rest.len()]);
    }
}

proof fn lemma_found_in_file(
    path: Seq<char>,
    v: Seq<Location>,
    name: Seq<char>,
    kind: Option<SymbolType>,
    k: int,
)
    requires
        0 <= k < service::matching(path, v, name, kind).len(),
    ensures
        exists|i: int|
            0 <= i < v.len() && is_asked_for(#[trigger] v[i], name, kind) && service::matching(
                path,
                v,
                name,
                kind,
            )[k] == (Location { path: Some(path), ..v[i] }),
    decreases v.len(),
{
    let p = v.drop_last();
    let few = service::matching(path, p, name, kind);
    if k < few.len() {
        lemma_found_in_file(path, p, name, kind, k);
        let i = choose|i: int|
            0 <= i < p.len() && is_asked_for(#[trigger] p[i], name, kind) && few[k] == (Location {
                path: Some(path),
                ..p[i]
            });
        assert(v[i] == p[i]);
    } else {
        assert(is_asked_for(v[v.len() - 1], name, kind));
    }
}

/// Every symbol of a file that is asked for is found, with the path of the file.
pub proof fn law_lookup_finds_what_is_asked_for(
    v: Seq<(Seq<char>, Entry)>,
    name: Seq<char>,
    kind: Option<SymbolType>,
    f: int,
    i: int,
)
    requires
        0 <= f < v.len(),
        0 <= i < v[f].1.symbols.len(),
        is_asked_for(v[f].1.symbols[i], name, kind),
    ensures
        service::found(v, name, kind, None).contains(
            Location { path: Some(v[f].0), ..v[f].1.symbols[i] },
        ),
    decreases v.len(),
{
    let want = Location { path: Some(v[f].0), ..v[f].1.symbols[i] };
    let rest = service::found(v.drop_last(), name, kind, None);
    let all = service::found(v, name, kind, None);
    if f < v.len() - 1 {
        law_lookup_finds_what_is_asked_for(v.drop_last(), name, kind, f, i);
        let k = choose|k: int| 0 <= k < rest.len() && rest[k] == want;
        assert(all[k] == want);
    } else {
        let s = v.last().1.symbols;
        law_file_gives_what_is_asked_for(v.last().0, s, name, kind);
        assert(all[rest.len() + asked_before(s, name, kind, i)] == want);
    }
}

/// The index after a file was indexed: its path has exactly the entry that was given, and
/// every other path has what it had.
pub proof fn law_indexing_replaces_one_file(
    v: Seq<(Seq<char>, Entry)>,
    path: Seq<char>,
    e: Entry,
    other: Seq<char>,
)
    requires
        service::unique(v),
    ensures
        ({
            let after = service::with_entry(v, path, e);
            &&& after.contains((path, e))
            &&& forall|x: Entry| #[trigger] after.contains((path, x)) ==> x == e
            &&& other != path ==> forall|x: Entry| #[trigger]
                after.contains((other, x)) <==> v.contains((other, x))
        }),
{
    let after = service::with_entry(v, path, e);
    service::lemma_position(v, path);
    match service::position(v, path) {
        Some(at) => {
            assert(after[at] == (path, e));
            assert forall|x: Entry| #[trigger] after.contains((path, x)) implies x == e by {
                let k = choose|k: int| 0 <= k < after.len() && after[k] == (path, x);
                if k != at {
                    assert(v[k].0 == path);
                    assert(v[at].0 == path);
                }
            }
            assert forall|x: Entry| other != path implies (#[trigger] after.contains((other, x))
                <==> v.contains((other, x))) by {
                if after.contains((other, x)) {
                    let k = choose|k: int| 0 <= k < after.len() && after[k] == (other, x);
                    assert(v[k] == (other, x));
                }
                if v.contains((other, x)) {
                    let k = choose|k: int| 0 <= k < v.len() && v[k] == (other, x);
                    assert(after[k] == (other, x));
                }
            }
        },
        None => {
            assert(after[v.len() as int] == (path, e));
            assert forall|x: Entry| #[trigger] after.contains((path, x)) implies x == e by {
                let k = choose|k: int| 0 <= k < after.len() && after[k] == (path, x);
                if k < v.len() {
                    assert(v[k].0 == path);
                }
            }
            assert forall|x: Entry| other != path implies (#[trigger] after.contains((other, x))
                <==> v.contains((other, x))) by {
                if after.contains((other, x)) {
                    let k = choose|k: int| 0 <= k < after.len() && after[k] == (other, x);
                    assert(v[k] == (other, x));
                }
                if v.contains((other, x)) {
                    let k = choose|k: int| 0 <= k < v.len() && v[k] == (other, x);
                    assert(after[k] == (other, x));
                }
            }
        },
    }
}

/// A batch is indexed as its files are, one after the other.
pub proof fn law_batch_is_its_files(
    v: Seq<(Seq<char>, Entry)>,
    batch: Seq<(Seq<char>, Entry)>,
    path: Seq<char>,
    e: Entry,
    t: u64,
)
    ensures
        service::with_batch(v, Seq::empty()) == v,
        service::with_batch(v, batch.push((path, e))) == service::with_entry(
            service::with_batch(v, batch),
            path,
            e,
        ),
        service::batch_mtime(t, Seq::empty()) == t,
        service::batch_mtime(t, batch.push((path, e))) >= e.mtime,
        service::batch_mtime(t, batch.push((path, e))) >= service::batch_mtime(t, batch),
        service::batch_mtime(t, batch.push((path, e))) == e.mtime || service::batch_mtime(
            t,
            batch.push((path, e)),
        ) == service::batch_mtime(t, batch),
{
    assert(batch.push((path, e)).drop_last() =~= batch);
}

// ---------------------------------------------------------------------------
// The database
// ---------------------------------------------------------------------------

/// What a row of the table of symbols holds, in the order of its columns.
pub open spec fn row_of(path: Seq<char>, s: Location) -> Seq<Bound> {
    seq![
        Bound::Text(path),
        Bound::Text(s.name),
        Bound::Text(if s.symbol_type is Definition { "definition"@ } else { "reference"@ }),
        if s.kind is Some { Bound::Text(s.kind->0) } else { Bound::Null },
        Bound::Number(s.start_line as int),
        Bound::Number(s.start_column as int),
        Bound::Number(s.end_line as int),
        Bound::Number(s.end_column as int),
    ]
}

/// A written symbol binds all of its columns, in order; a query binds the name, then the
/// type, then the limit, as far as they are asked for.
pub proof fn law_statements_bind_what_they_are_about(
    path: Seq<char>,
    s: Location,
    name: Seq<char>,
    kind: Option<SymbolType>,
    limit: Option<usize>,
)
    requires
        limit matches Some(n) ==> n <= i64::MAX,
    ensures
        db::statement_of(Change::Symbol(path, s)).params == row_of(path, s),
        db::statement_of(Change::Forget(path)).params == seq![Bound::Text(path)],
        db::select(name, kind, limit).params[0] == Bound::Text(name),
        kind is Some ==> db::select(name, kind, limit).params[1] == Bound::Text(
            if kind->0 is Definition {
                "definition"@
            } else {
                "reference"@
            },
        ),
        limit is Some ==> db::select(name, kind, limit).params.last() == Bound::Number(
            limit->0 as int,
        ),
        db::select(name, kind, limit).params.len() == 1 + (if kind is Some {
            1int
        } else {
            0
        }) + (if limit is Some {
            1int
        } else {
            0
        }),
{
    assert(db::statement_of(Change::Symbol(path, s)).params =~= row_of(path, s));
}

/// Different symbols make different statements: nothing of a symbol is lost where it is
/// written.
pub proof fn law_nothing_of_a_symbol_is_lost(
    path: Seq<char>,
    s: Location,
    other_path: Seq<char>,
    other: Location,
)
    requires
        s.path == other.path,
        db::statement_of(Change::Symbol(path, s)) == db::statement_of(
            Change::Symbol(other_path, other),
        ),
    ensures
        path == other_path,
        s == other,
{
    let a = db::statement_of(Change::Symbol(path, s)).params;
    let b = db::statement_of(Change::Symbol(other_path, other)).params;
    db::law_types_round_trip(s.symbol_type);
    db::law_types_round_trip(other.symbol_type);
    assert(a[0] == b[0]);
    assert(a[1] == b[1]);
    assert(a[2] == b[2]);
    assert(a[3] == b[3]);
    assert(a[4] == b[4]);
    assert(a[5] == b[5]);
    assert(a[6] == b[6]);
    assert(a[7] == b[7]);
}

/// A candidate of the walk has the language of its extension, where that can be loaded; the
/// languages of a walk are those that loading gives.
pub proof fn law_candidates_have_their_language(v: Seq<IndexCandidate>, i: int)
    requires
        0 <= i < v.len(),
    ensures
        ({
            let ext = walk::extension_of(v[i]);
            let found = parser::under(walk::languages(v), ext);
            &&& parser::load(ext) is Ok ==> found == Some(parser::load(ext)->Ok_0)
            &&& parser::load(ext) is Err ==> found is None
        }),
    decreases v.len(),
{
    lemma_walk_languages(v);
    let p = v.drop_last();
    let ext = walk::extension_of(v[i]);
    let rest = walk::languages(p);
    let last = walk::extension_of(v.last());
    if i < v.len() - 1 {
        law_candidates_have_their_language(p, i);
    }
    if parser::under(rest, last) is None && parser::load(last) is Ok {
        parser::law_insert_then_get(rest, last, parser::load(last)->Ok_0, ext);
    }
}

proof fn lemma_walk_languages(v: Seq<IndexCandidate>)
    ensures
        forall|e: Seq<char>|
            #![trigger parser::under(walk::languages(v), e)]
            parser::under(walk::languages(v), e) is Some ==> parser::load(e) is Ok && parser::under(
                walk::languages(v),
                e,
            ) == Some(parser::load(e)->Ok_0),
    decreases v.len(),
{
    if v.len() > 0 {
        let p = v.drop_last();
        lemma_walk_languages(p);
        let rest = walk::languages(p);
        let last = walk::extension_of(v.last());
        let all = walk::languages(v);
        assert forall|e: Seq<char>|
            #![trigger parser::under(all, e)]
            parser::under(all, e) is Some implies parser::load(e) is Ok && parser::under(all, e)
            == Some(parser::load(e)->Ok_0) by {
            if parser::under(rest, last) is None && parser::load(last) is Ok {
                parser::law_insert_then_get(rest, last, parser::load(last)->Ok_0, e);
            }
        }
    }
}

/// A batch writes its files one after the other.
pub proof fn law_batch_writes_its_files(
    t: db::Tables,
    first: Seq<Change>,
    then: Seq<Change>,
)
    ensures
        t.changes(first + then) == t.changes(first).changes(then),
    decreases then.len(),
{
    if then.len() == 0 {
        assert(first + then =~= first);
    } else {
        law_batch_writes_its_files(t, first, then.drop_last());
        assert((first + then).drop_last() =~= first + then.drop_last());
        assert((first + then).last() == then.last());
    }
}

// ---------------------------------------------------------------------------
// The service
// ---------------------------------------------------------------------------

/// A file is known where its time and its size are those of the index or of the database,
/// and its symbols where it has some there too; a change of either makes it unknown.
pub proof fn law_files_are_known_by_time_and_size(
    s: SymbolIndexService,
    path: Seq<char>,
    e: Entry,
    mtime: u64,
    size: u64,
    stored: StoredFile,
)
    requires
        service::entry_of(s.index(), path) == Some(e),
    ensures
        s.knows_file(path, mtime, size, None) <==> e.mtime == mtime && e.size == size,
        s.knows_file(path, mtime, size, Some(stored)) <==> (e.mtime == mtime && e.size == size) || (
        stored.mtime == mtime && stored.size == size),
        s.knows_symbols(path, mtime, size, None) <==> e.mtime == mtime && e.size == size
            && e.symbols.len() > 0,
        stored.mtime == mtime && stored.size == size && stored.has_symbols ==> s.knows_symbols(
            path,
            mtime,
            size,
            Some(stored),
        ),
{
}

/// A lookup asks the database where there is one and the files else, and a service that is
/// disabled finds nothing.
pub proof fn law_lookups_ask_database_or_files(
    s: SymbolIndexService,
    stored: Seq<Location>,
    name: Seq<char>,
    kind: Option<SymbolType>,
    limit: Option<usize>,
)
    ensures
        s.disabled ==> s.looked_up(None, name, kind, limit).len() == 0 && s.looked_up(
            Some(stored),
            name,
            kind,
            limit,
        ).len() == 0,
        !s.disabled ==> s.looked_up(Some(stored), name, kind, limit) == stored,
        !s.disabled ==> s.looked_up(None, name, kind, limit) == service::found(
            s.index(),
            name,
            kind,
            limit,
        ),
{
}

/// The value of a symbol is what it holds.
pub proof fn law_symbols_are_what_they_hold(v: Seq<SymbolLocation>, i: int)
    requires
        0 <= i < v.len(),
    ensures
        types::locations(v).len() == v.len(),
        ({
            let l = types::locations(v)[i];
            &&& l.path == text::opt(v[i].path)
            &&& l.name == v[i].name@
            &&& l.start_line == v[i].start_line
            &&& l.start_column == v[i].start_column
            &&& l.end_line == v[i].end_line
            &&& l.end_column == v[i].end_column
            &&& l.symbol_type == v[i].symbol_type
            &&& l.kind == text::opt(v[i].kind)
        }),
{
}

/// A name of a thread keeps letters and digits where they stand, and holds nothing else but
/// hyphens; it is never longer than 48 characters.
pub proof fn law_thread_names_are_plain(root: Seq<char>, i: int)
    requires
        0 <= i < walk::thread_name(root).len(),
    ensures
        walk::thread_name(root).len() <= 48,
        root.len() <= 48 ==> walk::thread_name(root).len() == root.len(),
        root.len() > 48 ==> walk::thread_name(root).len() == 48,
        ({
            let c = root[i];
            let plain = 'a' <= c <= 'z' || 'A' <= c <= 'Z' || '0' <= c <= '9';
            walk::thread_name(root)[i] == (if plain {
                c
            } else {
                '-'
            })
        }),
{
}

/// The mark of the latest change is the later of two.
pub proof fn law_latest_change_is_kept(a: u64, b: u64)
    ensures
        service::later(a, b) >= a && service::later(a, b) >= b,
        service::later(a, b) == a || service::later(a, b) == b,
{
}

} // verus!
