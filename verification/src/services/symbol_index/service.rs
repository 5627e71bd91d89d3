//! The symbol index: files with their symbols, and how far the index has come.

use crate::services::symbol_index::types;
use crate::services::symbol_index::types::{
    Entry, FileIndexEntry, Location, StoredFile, SymbolIndexStatus, SymbolLocation, SymbolType,
};
use crate::text;
use vstd::prelude::*;

verus! {

/// The directory of the database.
pub const INDEX_DIR: &'static str = ".sned-symbol-index";

/// The file of the database in its directory.
pub const DB_FILENAME: &'static str = "data.db";

/// `SystemTime::now`, of which nothing is promised but that it returns a point in time.
pub assume_specification[ std::time::SystemTime::now ]() -> (r: std::time::SystemTime);

/// Symbol index service. Where the index is persisted, the database holds the files as
/// well, and answers for the symbols.
#[derive(Debug)]
pub struct SymbolIndexService {
    /// The files by their paths, none twice.
    pub files: Vec<(String, FileIndexEntry)>,
    pub project_root: String,
    /// Optional override for the DB directory. When set, the SQLite database
    /// is stored here instead of under the project root. Used to keep
    /// the workspace clean by storing the index in a temp directory.
    pub index_root: Option<String>,
    /// The number of files in the database, where the index is persisted.
    pub stored_file_count: Option<usize>,
    pub disabled: bool,
    pub status: SymbolIndexStatus,
}

/// The values of a list of files.
pub open spec fn file_values(v: Seq<(String, FileIndexEntry)>) -> Seq<(Seq<char>, Entry)> {
    v.map_values(|f: (String, FileIndexEntry)| (f.0@, f.1@))
}

/// No path stands twice.
pub open spec fn unique(v: Seq<(Seq<char>, Entry)>) -> bool {
    forall|i: int, j: int| 0 <= i < j < v.len() ==> (#[trigger] v[i]).0 != (#[trigger] v[j]).0
}

/// The position of a path.
pub open spec fn position(v: Seq<(Seq<char>, Entry)>, path: Seq<char>) -> Option<int>
    decreases v.len(),
{
    if v.len() == 0 {
        None
    } else if v.last().0 == path {
        Some(v.len() - 1)
    } else {
        position(v.drop_last(), path)
    }
}

/// The entry of a path.
pub open spec fn entry_of(v: Seq<(Seq<char>, Entry)>, path: Seq<char>) -> Option<Entry> {
    match position(v, path) {
        Some(i) => Some(v[i].1),
        None => None,
    }
}

/// The files with an entry put: in the place of the one with its path, at the end else.
pub open spec fn with_entry(v: Seq<(Seq<char>, Entry)>, path: Seq<char>, e: Entry) -> Seq<
    (Seq<char>, Entry),
> {
    match position(v, path) {
        Some(i) => v.update(i, (path, e)),
        None => v.push((path, e)),
    }
}

/// The files whose paths are in a list.
pub open spec fn kept(v: Seq<(Seq<char>, Entry)>, paths: Seq<Seq<char>>) -> Seq<
    (Seq<char>, Entry),
>
    decreases v.len(),
{
    if v.len() == 0 {
        v
    } else if paths.contains(v.last().0) {
        kept(v.drop_last(), paths).push(v.last())
    } else {
        kept(v.drop_last(), paths)
    }
}

pub proof fn lemma_position(v: Seq<(Seq<char>, Entry)>, path: Seq<char>)
    ensures
        position(v, path) matches Some(i) ==> 0 <= i < v.len() && v[i].0 == path,
        position(v, path) is None ==> forall|i: int|
            0 <= i < v.len() ==> (#[trigger] v[i]).0 != path,
    decreases v.len(),
{
    if v.len() > 0 {
        let p = v.drop_last();
        lemma_position(p, path);
        assert(forall|i: int| 0 <= i < p.len() ==> p[i] == v[i]);
    }
}

proof fn lemma_position_is(v: Seq<(Seq<char>, Entry)>, path: Seq<char>, i: int)
    requires
        unique(v),
        0 <= i < v.len(),
        v[i].0 == path,
    ensures
        position(v, path) == Some(i),
{
    lemma_position(v, path);
    match position(v, path) {
        Some(k) => {
            if k < i {
                assert(v[k].0 != v[i].0);
            } else if i < k {
                assert(v[i].0 != v[k].0);
            }
        },
        None => {
            assert(v[i].0 != path);
        },
    }
}

/// What is put under a path is found under it, no other path changes, and no path stands
/// twice.
pub proof fn law_put_then_get(
    v: Seq<(Seq<char>, Entry)>,
    path: Seq<char>,
    e: Entry,
    other: Seq<char>,
)
    requires
        unique(v),
    ensures
        unique(with_entry(v, path, e)),
        entry_of(with_entry(v, path, e), path) == Some(e),
        other != path ==> entry_of(with_entry(v, path, e), other) == entry_of(v, other),
{
    let w = with_entry(v, path, e);
    lemma_position(v, path);
    assert forall|i: int, j: int| 0 <= i < j < w.len() implies (#[trigger] w[i]).0 != (
    #[trigger] w[j]).0 by {
        if j < v.len() {
            assert(v[i].0 != v[j].0);
        } else {
            assert(v[i].0 != path);
        }
    }
    match position(v, path) {
        Some(i) => lemma_position_is(w, path, i),
        None => lemma_position_is(w, path, v.len() as int),
    }
    if other != path {
        lemma_position(v, other);
        lemma_position(w, other);
        match position(v, other) {
            Some(i) => {
                assert(w[i] == v[i]);
                lemma_position_is(w, other, i);
            },
            None => {
                if let Some(k) = position(w, other) {
                    if k < v.len() {
                        assert(v[k].0 != other);
                    }
                }
            },
        }
    }
}

/// Exactly the files with existing paths are kept, as they were.
pub proof fn law_only_existing_files_are_kept(
    v: Seq<(Seq<char>, Entry)>,
    paths: Seq<Seq<char>>,
    path: Seq<char>,
)
    requires
        unique(v),
    ensures
        unique(kept(v, paths)),
        entry_of(kept(v, paths), path) == (if paths.contains(path) {
            entry_of(v, path)
        } else {
            None
        }),
{
    lemma_kept(v, paths);
    let w = kept(v, paths);
    lemma_position(v, path);
    lemma_position(w, path);
    if paths.contains(path) {
        match position(v, path) {
            Some(i) => {
                assert(v[i].0 == path);
                let k = choose|k: int| 0 <= k < w.len() && w[k] == v[i];
                lemma_position_is(w, path, k);
            },
            None => {
                if let Some(k) = position(w, path) {
                    let i = choose|i: int| 0 <= i < v.len() && v[i] == w[k];
                    assert(v[i].0 != path);
                }
            },
        }
    }
}

proof fn lemma_kept(v: Seq<(Seq<char>, Entry)>, paths: Seq<Seq<char>>)
    requires
        unique(v),
    ensures
        unique(kept(v, paths)),
        forall|k: int|
            #![trigger kept(v, paths)[k]]
            0 <= k < kept(v, paths).len() ==> paths.contains(kept(v, paths)[k].0) && exists|i: int|
                0 <= i < v.len() && v[i] == kept(v, paths)[k],
        forall|i: int|
            #![trigger v[i]]
            0 <= i < v.len() && paths.contains(v[i].0) ==> exists|k: int|
                0 <= k < kept(v, paths).len() && kept(v, paths)[k] == v[i],
    decreases v.len(),
{
    if v.len() > 0 {
        let p = v.drop_last();
        assert(unique(p)) by {
            assert forall|i: int, j: int| 0 <= i < j < p.len() implies (#[trigger] p[i]).0 != (
            #[trigger] p[j]).0 by {
                assert(v[i].0 != v[j].0);
            }
        }
        lemma_kept(p, paths);
        let q = kept(p, paths);
        let w = kept(v, paths);
        assert forall|k: int| #![trigger w[k]] 0 <= k < w.len() implies paths.contains(w[k].0)
            && exists|i: int| 0 <= i < v.len() && v[i] == w[k] by {
            if k < q.len() {
                assert(w[k] == q[k]);
                let i = choose|i: int| 0 <= i < p.len() && p[i] == q[k];
                assert(v[i] == w[k]);
            } else {
                assert(v[v.len() - 1] == w[k]);
            }
        }
        assert forall|i: int| #![trigger v[i]] 0 <= i < v.len() && paths.contains(
            v[i].0,
        ) implies exists|k: int| 0 <= k < w.len() && w[k] == v[i] by {
            if i < p.len() {
                assert(p[i] == v[i]);
                let k = choose|k: int| 0 <= k < q.len() && q[k] == p[i];
                assert(w[k] == v[i]);
            } else {
                assert(w[w.len() - 1] == v[i]);
            }
        }
        assert forall|i: int, j: int| 0 <= i < j < w.len() implies (#[trigger] w[i]).0 != (
        #[trigger] w[j]).0 by {
            if j < q.len() {
                assert(q[i].0 != q[j].0);
            } else {
                assert(w[i] == q[i]);
                let m = choose|m: int| 0 <= m < p.len() && p[m] == q[i];
                assert(v[m].0 != v[v.len() - 1].0);
            }
        }
    }
}

// ---------------------------------------------------------------------------
// Lookup
// ---------------------------------------------------------------------------

/// A symbol has the name, and the type where one is asked for.
pub open spec fn is_match(s: Location, name: Seq<char>, kind: Option<SymbolType>) -> bool {
    s.name == name && (match kind {
        Some(k) => s.symbol_type == k,
        None => true,
    })
}

/// The matching symbols of a file, each with the path of the file.
pub open spec fn matching(
    path: Seq<char>,
    v: Seq<Location>,
    name: Seq<char>,
    kind: Option<SymbolType>,
) -> Seq<Location>
    decreases v.len(),
{
    if v.len() == 0 {
        v
    } else if is_match(v.last(), name, kind) {
        matching(path, v.drop_last(), name, kind).push(
            Location { path: Some(path), ..v.last() },
        )
    } else {
        matching(path, v.drop_last(), name, kind)
    }
}

/// What is taken of the matching symbols of a file where `have` were taken before it: as
/// many as the limit leaves, but one at least.
pub open spec fn taken(m: Seq<Location>, have: nat, limit: Option<usize>) -> Seq<Location> {
    match limit {
        None => m,
        Some(l) => {
            let k = if l > have + 1 {
                l - have
            } else {
                1
            };
            if m.len() <= k {
                m
            } else {
                m.take(k)
            }
        },
    }
}

/// The symbols that a lookup in files gives.
pub open spec fn found(
    v: Seq<(Seq<char>, Entry)>,
    name: Seq<char>,
    kind: Option<SymbolType>,
    limit: Option<usize>,
) -> Seq<Location>
    decreases v.len(),
{
    if v.len() == 0 {
        Seq::empty()
    } else {
        let rest = found(v.drop_last(), name, kind, limit);
        rest + taken(matching(v.last().0, v.last().1.symbols, name, kind), rest.len(), limit)
    }
}

/// The number of files with matching symbols that come after the limit was reached.
pub open spec fn late_files(
    v: Seq<(Seq<char>, Entry)>,
    name: Seq<char>,
    kind: Option<SymbolType>,
    limit: usize,
) -> nat
    decreases v.len(),
{
    if v.len() == 0 {
        0
    } else {
        let p = v.drop_last();
        late_files(p, name, kind, limit) + (if found(p, name, kind, Some(limit)).len() >= limit
            && matching(v.last().0, v.last().1.symbols, name, kind).len() > 0 {
            1nat
        } else {
            0
        })
    }
}

/// The limit bounds what a lookup in files gives, but for one symbol of each file with
/// matching symbols that comes after the limit was reached.
pub proof fn law_limit_bounds_each_file(
    v: Seq<(Seq<char>, Entry)>,
    name: Seq<char>,
    kind: Option<SymbolType>,
    limit: usize,
)
    ensures
        found(v, name, kind, Some(limit)).len() <= limit + late_files(v, name, kind, limit),
        late_files(v, name, kind, limit) == 0 ==> found(v, name, kind, Some(limit)).len() <= limit,
    decreases v.len(),
{
    if v.len() > 0 {
        law_limit_bounds_each_file(v.drop_last(), name, kind, limit);
    }
}

/// Every symbol of an indexed file is found by its name, with its path.
pub proof fn law_indexed_symbols_are_found(
    v: Seq<(Seq<char>, Entry)>,
    path: Seq<char>,
    i: int,
    kind: Option<SymbolType>,
)
    requires
        entry_of(v, path) is Some,
        0 <= i < (entry_of(v, path)->0).symbols.len(),
        is_match(
            (entry_of(v, path)->0).symbols[i],
            (entry_of(v, path)->0).symbols[i].name,
            kind,
        ),
    ensures
        found(v, (entry_of(v, path)->0).symbols[i].name, kind, None).contains(
            Location { path: Some(path), ..(entry_of(v, path)->0).symbols[i] },
        ),
    decreases v.len(),
{
    let s = (entry_of(v, path)->0).symbols[i];
    let want = Location { path: Some(path), ..s };
    let p = v.drop_last();
    let rest = found(p, s.name, kind, None);
    let own = matching(v.last().0, v.last().1.symbols, s.name, kind);
    let all = found(v, s.name, kind, None);
    if v.last().0 == path {
        lemma_matching_contains(path, v.last().1.symbols, s.name, kind, i);
        let k = choose|k: int| 0 <= k < own.len() && own[k] == want;
        assert(all[rest.len() + k] == want);
    } else {
        lemma_position(v, path);
        lemma_position(p, path);
        let at = position(v, path)->0;
        assert(entry_of(p, path) == entry_of(v, path));
        law_indexed_symbols_are_found(p, path, i, kind);
        let k = choose|k: int| 0 <= k < rest.len() && rest[k] == want;
        assert(all[k] == want);
    }
}

/// What was written for a file is found by its name, and it is all that the index holds of
/// the file.
pub proof fn law_written_symbols_are_found(
    v: Seq<(Seq<char>, Entry)>,
    path: Seq<char>,
    e: Entry,
    i: int,
)
    requires
        unique(v),
        0 <= i < e.symbols.len(),
    ensures
        found(with_entry(v, path, e), e.symbols[i].name, None, None).contains(
            Location { path: Some(path), ..e.symbols[i] },
        ),
        entry_of(with_entry(v, path, e), path) == Some(e),
{
    law_put_then_get(v, path, e, path);
    law_indexed_symbols_are_found(with_entry(v, path, e), path, i, None);
}

proof fn lemma_matching_contains(
    path: Seq<char>,
    v: Seq<Location>,
    name: Seq<char>,
    kind: Option<SymbolType>,
    i: int,
)
    requires
        0 <= i < v.len(),
        is_match(v[i], name, kind),
    ensures
        matching(path, v, name, kind).contains(Location { path: Some(path), ..v[i] }),
    decreases v.len(),
{
    let want = Location { path: Some(path), ..v[i] };
    let all = matching(path, v, name, kind);
    if i == v.len() - 1 {
        assert(all[all.len() - 1] == want);
    } else {
        let p = v.drop_last();
        lemma_matching_contains(path, p, name, kind, i);
        let rest = matching(path, p, name, kind);
        let k = choose|k: int| 0 <= k < rest.len() && rest[k] == want;
        assert(all[k] == want);
    }
}

/// A lookup gives nothing but symbols with the name and the type that are asked for.
pub proof fn law_found_symbols_match(
    v: Seq<(Seq<char>, Entry)>,
    name: Seq<char>,
    kind: Option<SymbolType>,
    limit: Option<usize>,
)
    ensures
        forall|i: int|
            0 <= i < found(v, name, kind, limit).len() ==> is_match(
                #[trigger] found(v, name, kind, limit)[i],
                name,
                kind,
            ),
    decreases v.len(),
{
    if v.len() > 0 {
        let p = v.drop_last();
        law_found_symbols_match(p, name, kind, limit);
        lemma_matching_matches(v.last().0, v.last().1.symbols, name, kind);
        let rest = found(p, name, kind, limit);
        let own = matching(v.last().0, v.last().1.symbols, name, kind);
        let all = found(v, name, kind, limit);
        assert forall|i: int| 0 <= i < all.len() implies is_match(#[trigger] all[i], name, kind) by {
            if i < rest.len() {
                assert(all[i] == rest[i]);
            } else {
                assert(all[i] == own[i - rest.len()]);
            }
        }
    }
}

proof fn lemma_matching_matches(
    path: Seq<char>,
    v: Seq<Location>,
    name: Seq<char>,
    kind: Option<SymbolType>,
)
    ensures
        forall|i: int|
            0 <= i < matching(path, v, name, kind).len() ==> is_match(
                #[trigger] matching(path, v, name, kind)[i],
                name,
                kind,
            ),
    decreases v.len(),
{
    if v.len() > 0 {
        lemma_matching_matches(path, v.drop_last(), name, kind);
        let rest = matching(path, v.drop_last(), name, kind);
        let all = matching(path, v, name, kind);
        assert forall|i: int| 0 <= i < all.len() implies is_match(#[trigger] all[i], name, kind) by {
            if i < rest.len() {
                assert(is_match(rest[i], name, kind));
            }
        }
    }
}

proof fn lemma_matching_prefix(
    path: Seq<char>,
    v: Seq<Location>,
    name: Seq<char>,
    kind: Option<SymbolType>,
    n: int,
)
    requires
        0 <= n <= v.len(),
    ensures
        matching(path, v.take(n), name, kind).len() <= matching(path, v, name, kind).len(),
        matching(path, v.take(n), name, kind) == matching(path, v, name, kind).take(
            matching(path, v.take(n), name, kind).len() as int,
        ),
    decreases v.len(),
{
    let all = matching(path, v, name, kind);
    if n == v.len() {
        assert(v.take(n) =~= v);
        assert(all.take(all.len() as int) =~= all);
    } else {
        let p = v.drop_last();
        lemma_matching_prefix(path, p, name, kind, n);
        assert(p.take(n) =~= v.take(n));
        let few = matching(path, v.take(n), name, kind);
        assert(all.take(few.len() as int) =~= matching(path, p, name, kind).take(
            few.len() as int,
        ));
    }
}

fn symbol_matches(s: &SymbolLocation, name: &str, kind: Option<SymbolType>) -> (r: bool)
    ensures
        r == is_match(s@, name@, kind),
{
    if !text::same(s.name.as_str(), name) {
        return false;
    }
    match kind {
        Some(k) => s.symbol_type == k,
        None => true,
    }
}

/// Adds what is taken of a file.
fn take_from_file(
    path: &String,
    symbols: &Vec<SymbolLocation>,
    name: &str,
    kind: Option<SymbolType>,
    limit: Option<usize>,
    out: &mut Vec<SymbolLocation>,
)
    ensures
        types::locations(final(out)@) == types::locations(old(out)@) + taken(
            matching(path@, types::locations(symbols@), name@, kind),
            old(out)@.len(),
            limit,
        ),
{
    let ghost ls = types::locations(symbols@);
    let ghost start = types::locations(out@);
    let ghost all = matching(path@, ls, name@, kind);
    let mut full = false;
    let mut i: usize = 0;
    assert(ls.take(0) =~= Seq::empty());
    assert(start + matching(path@, ls.take(0), name@, kind) =~= start);
    while i < symbols.len() && !full
        invariant
            i <= symbols@.len(),
            ls == types::locations(symbols@),
            all == matching(path@, ls, name@, kind),
            types::locations(out@) == start + matching(path@, ls.take(i as int), name@, kind),
            !full ==> (limit matches Some(l) ==> matching(path@, ls.take(i as int), name@, kind).len()
                == 0 || start.len() + matching(path@, ls.take(i as int), name@, kind).len() < l),
            full ==> limit is Some && matching(path@, ls.take(i as int), name@, kind).len() == (
            if limit->0 > start.len() + 1 {
                limit->0 - start.len()
            } else {
                1
            }),
        decreases symbols@.len() - i,
    {
        assert(ls.take(i + 1).drop_last() =~= ls.take(i as int));
        assert(ls.take(i + 1).last() == symbols@[i as int]@);
        if symbol_matches(&symbols[i], name, kind) {
            let ghost before = out@;
            let mut s = symbols[i].copy();
            s.path = Some(path.clone());
            out.push(s);
            assert(types::locations(out@) =~= types::locations(before).push(s@));
            assert(types::locations(out@) =~= start + matching(
                path@,
                ls.take(i + 1),
                name@,
                kind,
            ));
            assert(types::locations(out@).len() == out@.len());
            if let Some(l) = limit {
                if out.len() >= l {
                    full = true;
                }
            }
        }
        i = i + 1;
    }
    proof {
        lemma_matching_prefix(path@, ls, name@, kind, i as int);
        assert(start.len() == old(out)@.len());
        if !full {
            assert(ls.take(i as int) =~= ls);
        }
        assert(all.take(all.len() as int) =~= all);
        assert(types::locations(out@) =~= start + taken(all, start.len(), limit));
    }
}

// ---------------------------------------------------------------------------
// The service
// ---------------------------------------------------------------------------

/// The larger of two times.
pub open spec fn later(a: u64, b: u64) -> u64 {
    if a < b {
        b
    } else {
        a
    }
}

/// The entries of a batch: paths with their times, sizes and symbols.
pub open spec fn batch_values(v: Seq<(String, u64, u64, Vec<SymbolLocation>)>) -> Seq<
    (Seq<char>, Entry),
> {
    v.map_values(
        |e: (String, u64, u64, Vec<SymbolLocation>)|
            (e.0@, Entry { mtime: e.1, size: e.2, symbols: types::locations(e.3@) }),
    )
}

/// The files with the entries of a batch put in order.
pub open spec fn with_batch(v: Seq<(Seq<char>, Entry)>, batch: Seq<(Seq<char>, Entry)>) -> Seq<
    (Seq<char>, Entry),
>
    decreases batch.len(),
{
    if batch.len() == 0 {
        v
    } else {
        with_entry(with_batch(v, batch.drop_last()), batch.last().0, batch.last().1)
    }
}

/// The latest time of a batch and a time before it.
pub open spec fn batch_mtime(t: u64, batch: Seq<(Seq<char>, Entry)>) -> u64
    decreases batch.len(),
{
    if batch.len() == 0 {
        t
    } else {
        later(batch_mtime(t, batch.drop_last()), batch.last().1.mtime)
    }
}

impl SymbolIndexService {
    /// The files of the index.
    pub open spec fn index(&self) -> Seq<(Seq<char>, Entry)> {
        file_values(self.files@)
    }

    /// No path stands twice.
    pub open spec fn wf(&self) -> bool {
        unique(self.index())
    }

    /// The number of files that counts: of the database where the index is persisted, in
    /// memory else.
    pub open spec fn file_count(&self) -> usize {
        match self.stored_file_count {
            Some(n) => n,
            None => self.files@.len() as usize,
        }
    }

    /// The database holds files.
    pub open spec fn has_stored_files(&self) -> bool {
        match self.stored_file_count {
            Some(n) => n > 0,
            None => false,
        }
    }

    /// Everything but the files and the status is the same.
    pub open spec fn same_place(&self, other: &SymbolIndexService) -> bool {
        &&& self.project_root == other.project_root
        &&& self.index_root == other.index_root
        &&& self.stored_file_count == other.stored_file_count
        &&& self.disabled == other.disabled
    }

    /// The status after an update with a time.
    pub open spec fn updated(&self, before: SymbolIndexStatus, mtime: u64) -> bool {
        &&& self.status.indexed_file_count == self.file_count()
        &&& self.status.workspace_file_count == before.workspace_file_count
        &&& self.status.initial_walk_complete == before.initial_walk_complete
        &&& self.status.high_water_mtime == later(before.high_water_mtime, mtime)
        &&& self.status.last_indexed_at is Some
    }

    /// An empty index of a project.
    pub fn new(project_root: String) -> (r: SymbolIndexService)
        ensures
            r.wf(),
            r.index() == Seq::<(Seq<char>, Entry)>::empty(),
            r.project_root == project_root,
            r.index_root is None,
            r.stored_file_count is None,
            !r.disabled,
            r.status == (SymbolIndexStatus {
                indexed_file_count: 0,
                workspace_file_count: 0,
                initial_walk_complete: false,
                last_indexed_at: None,
                high_water_mtime: 0,
            }),
    {
        let r = SymbolIndexService {
            files: Vec::new(),
            project_root,
            index_root: None,
            stored_file_count: None,
            disabled: false,
            status: SymbolIndexStatus::default(),
        };
        assert(r.index() =~= Seq::empty());
        r
    }

    /// The index switched off: it holds nothing, and there is nothing left to walk.
    pub fn disabled(self) -> (r: SymbolIndexService)
        ensures
            r.wf(),
            r.disabled,
            r.index() == Seq::<(Seq<char>, Entry)>::empty(),
            r.project_root == self.project_root,
            r.index_root == self.index_root,
            r.stored_file_count is None,
            r.status == (SymbolIndexStatus { initial_walk_complete: true, ..self.status }),
    {
        let mut status = self.status;
        status.initial_walk_complete = true;
        let r = SymbolIndexService {
            files: Vec::new(),
            project_root: self.project_root,
            index_root: self.index_root,
            stored_file_count: None,
            disabled: true,
            status,
        };
        assert(r.index() =~= Seq::empty());
        r
    }

    /// Override the directory used for the SQLite database. The git exclude entry is then
    /// not needed because the database does not live inside the project tree.
    pub fn with_index_root(self, root: String) -> (r: SymbolIndexService)
        ensures
            r.index_root == Some(root),
            r.files == self.files,
            r.project_root == self.project_root,
            r.stored_file_count == self.stored_file_count,
            r.disabled == self.disabled,
            r.status == self.status,
    {
        SymbolIndexService {
            files: self.files,
            project_root: self.project_root,
            index_root: Some(root),
            stored_file_count: self.stored_file_count,
            disabled: self.disabled,
            status: self.status,
        }
    }

    /// Whether the index is switched off.
    pub fn is_disabled(&self) -> (r: bool)
        ensures
            r == self.disabled,
    {
        self.disabled
    }

    /// The directory under which the database is kept, unless the index is switched off.
    pub fn database_base(&self) -> (r: Option<&str>)
        ensures
            r is None <==> self.disabled,
            r matches Some(s) ==> s@ == (match self.index_root {
                Some(root) => root@,
                None => self.project_root@,
            }),
    {
        if self.disabled {
            return None;
        }
        match &self.index_root {
            Some(root) => Some(root.as_str()),
            None => Some(self.project_root.as_str()),
        }
    }

    /// Whether the directory of the database is to be added to the git exclude file with a
    /// content.
    pub fn wants_exclude(&self, content: &str) -> (r: bool)
        ensures
            r == (self.index_root is None && !text::has(content@, INDEX_DIR@)),
    {
        self.index_root.is_none() && !text::contains(content, INDEX_DIR)
    }

    /// Takes the database into use, with its number of files and the latest of their times.
    pub fn attach_database(&mut self, file_count: usize, latest_mtime: Option<u64>)
        ensures
            final(self).files == old(self).files,
            final(self).project_root == old(self).project_root,
            final(self).index_root == old(self).index_root,
            final(self).disabled == old(self).disabled,
            final(self).stored_file_count == Some(file_count),
            final(self).status == (SymbolIndexStatus {
                indexed_file_count: file_count,
                high_water_mtime: match latest_mtime {
                    Some(t) => t,
                    None => 0,
                },
                ..old(self).status
            }),
    {
        self.stored_file_count = Some(file_count);
        self.status.indexed_file_count = file_count;
        self.status.high_water_mtime = match latest_mtime {
            Some(t) => t,
            None => 0,
        };
    }

    /// Takes note of the number of files in the database after it was written, which the
    /// status shows from then on.
    pub fn note_stored_files(&mut self, file_count: usize)
        ensures
            final(self).files == old(self).files,
            final(self).project_root == old(self).project_root,
            final(self).index_root == old(self).index_root,
            final(self).disabled == old(self).disabled,
            final(self).status == (SymbolIndexStatus {
                indexed_file_count: file_count,
                ..old(self).status
            }),
            final(self).stored_file_count == Some(file_count),
    {
        self.stored_file_count = Some(file_count);
        self.status.indexed_file_count = file_count;
    }

    fn find(&self, path: &str) -> (r: Option<usize>)
        ensures
            r matches Some(i) ==> i < self.files@.len() && position(self.index(), path@) == Some(
                i as int,
            ),
            r is None ==> position(self.index(), path@) is None,
    {
        let ghost v = self.index();
        let mut n: usize = self.files.len();
        assert(v.take(n as int) =~= v);
        while n > 0
            invariant
                n <= self.files@.len(),
                v == self.index(),
                position(v.take(n as int), path@) == position(v, path@),
            decreases n,
        {
            assert(v.take(n as int).drop_last() =~= v.take(n - 1));
            assert(v.take(n as int).last() == (self.files@[n - 1].0@, self.files@[n - 1].1@));
            if text::same(self.files[n - 1].0.as_str(), path) {
                return Some(n - 1);
            }
            n = n - 1;
        }
        None
    }

    fn put(&mut self, path: &str, e: FileIndexEntry)
        requires
            old(self).wf(),
        ensures
            final(self).wf(),
            final(self).index() == with_entry(old(self).index(), path@, e@),
            final(self).same_place(old(self)),
            final(self).status == old(self).status,
    {
        let ghost before = self.index();
        proof {
            law_put_then_get(before, path@, e@, path@);
        }
        match self.find(path) {
            Some(i) => {
                self.files[i] = (path.to_owned(), e);
                assert(self.index() =~= before.update(i as int, (path@, e@)));
            },
            None => {
                self.files.push((path.to_owned(), e));
                assert(self.index() =~= before.push((path@, e@)));
            },
        }
    }

    /// Takes note of an update with a time.
    pub fn record_index_update(&mut self, mtime: u64)
        ensures
            final(self).files == old(self).files,
            final(self).same_place(old(self)),
            final(self).updated(old(self).status, mtime),
    {
        self.status.indexed_file_count = match self.stored_file_count {
            Some(n) => n,
            None => self.files.len(),
        };
        if self.status.high_water_mtime < mtime {
            self.status.high_water_mtime = mtime;
        }
        self.status.last_indexed_at = Some(std::time::SystemTime::now());
    }

    /// Indexes a file; an index that is switched off stays as it is.
    pub fn index_file(&mut self, rel_path: &str, mtime: u64, size: u64, symbols: &[SymbolLocation])
        requires
            old(self).wf(),
        ensures
            final(self).wf(),
            final(self).same_place(old(self)),
            old(self).disabled ==> *final(self) == *old(self),
            !old(self).disabled ==> final(self).index() == with_entry(
                old(self).index(),
                rel_path@,
                Entry { mtime, size, symbols: types::locations(symbols@) },
            ) && final(self).updated(old(self).status, mtime),
    {
        if self.disabled {
            return;
        }
        let e = FileIndexEntry { mtime, size, symbols: types::copy_locations(symbols) };
        self.put(rel_path, e);
        self.record_index_update(mtime);
    }

    /// Symbols are known of a file with this time and size, in memory or in the database.
    pub open spec fn knows_symbols(
        &self,
        path: Seq<char>,
        mtime: u64,
        size: u64,
        stored: Option<StoredFile>,
    ) -> bool {
        ||| (entry_of(self.index(), path) matches Some(e) && e.mtime == mtime && e.size == size
            && e.symbols.len() > 0)
        ||| (stored matches Some(s) && s.mtime == mtime && s.size == size && s.has_symbols)
    }

    /// Whether symbols are known of a file with this time and size; `stored` is what the
    /// database knows of it.
    pub fn has_symbols_with_metadata(
        &self,
        rel_path: &str,
        mtime: u64,
        size: u64,
        stored: Option<StoredFile>,
    ) -> (r: bool)
        ensures
            r == self.knows_symbols(rel_path@, mtime, size, stored),
    {
        if let Some(i) = self.find(rel_path) {
            let e = &self.files[i].1;
            assert(self.index()[i as int].1 == e@);
            assert(types::locations(e.symbols@).len() == e.symbols@.len());
            if e.mtime == mtime && e.size == size && e.symbols.len() > 0 {
                return true;
            }
        }
        match stored {
            Some(s) => s.mtime == mtime && s.size == size && s.has_symbols,
            None => false,
        }
    }

    /// A file with this time and size is known, in memory or in the database.
    pub open spec fn knows_file(
        &self,
        path: Seq<char>,
        mtime: u64,
        size: u64,
        stored: Option<StoredFile>,
    ) -> bool {
        ||| (entry_of(self.index(), path) matches Some(e) && e.mtime == mtime && e.size == size)
        ||| (stored matches Some(s) && s.mtime == mtime && s.size == size)
    }

    /// Whether a file with this time and size is known; `stored` is what the database
    /// knows of it.
    pub fn has_matching_metadata(
        &self,
        rel_path: &str,
        mtime: u64,
        size: u64,
        stored: Option<StoredFile>,
    ) -> (r: bool)
        ensures
            r == self.knows_file(rel_path@, mtime, size, stored),
    {
        if let Some(i) = self.find(rel_path) {
            let e = &self.files[i].1;
            assert(self.index()[i as int].1 == e@);
            if e.mtime == mtime && e.size == size {
                return true;
            }
        }
        match stored {
            Some(s) => s.mtime == mtime && s.size == size,
            None => false,
        }
    }

    /// Indexes a file, unless that would forget the symbols that are known of it: no
    /// symbols for a file of the same time and size leave the index as it is. `stored` is
    /// what the database knows of the file. Gives whether the file was indexed.
    pub fn index_file_safe_with(
        &mut self,
        rel_path: &str,
        mtime: u64,
        size: u64,
        symbols: &[SymbolLocation],
        stored: Option<StoredFile>,
    ) -> (indexed: bool)
        requires
            old(self).wf(),
        ensures
            final(self).wf(),
            final(self).same_place(old(self)),
            indexed == !(old(self).disabled || (symbols@.len() == 0 && old(self).knows_symbols(
                rel_path@,
                mtime,
                size,
                stored,
            ))),
            old(self).disabled || (symbols@.len() == 0 && old(self).knows_symbols(
                rel_path@,
                mtime,
                size,
                stored,
            )) ==> *final(self) == *old(self),
            !old(self).disabled && !(symbols@.len() == 0 && old(self).knows_symbols(
                rel_path@,
                mtime,
                size,
                stored,
            )) ==> final(self).index() == with_entry(
                old(self).index(),
                rel_path@,
                Entry { mtime, size, symbols: types::locations(symbols@) },
            ) && final(self).updated(old(self).status, mtime),
    {
        if self.disabled {
            return false;
        }
        if symbols.len() == 0 && self.has_symbols_with_metadata(rel_path, mtime, size, stored) {
            return false;
        }
        self.index_file(rel_path, mtime, size, symbols);
        true
    }

    /// Indexes a file of which only memory knows, unless that would forget its symbols.
    pub fn index_file_safe(
        &mut self,
        rel_path: &str,
        mtime: u64,
        size: u64,
        symbols: &[SymbolLocation],
    )
        requires
            old(self).wf(),
        ensures
            final(self).wf(),
            final(self).same_place(old(self)),
            old(self).disabled || (symbols@.len() == 0 && old(self).knows_symbols(
                rel_path@,
                mtime,
                size,
                None,
            )) ==> *final(self) == *old(self),
            !old(self).disabled && !(symbols@.len() == 0 && old(self).knows_symbols(
                rel_path@,
                mtime,
                size,
                None,
            )) ==> final(self).index() == with_entry(
                old(self).index(),
                rel_path@,
                Entry { mtime, size, symbols: types::locations(symbols@) },
            ) && final(self).updated(old(self).status, mtime),
    {
        let _indexed = self.index_file_safe_with(rel_path, mtime, size, symbols, None);
    }

    /// Indexes files in order.
    pub fn index_files_batch(&mut self, entries: &Vec<(String, u64, u64, Vec<SymbolLocation>)>)
        requires
            old(self).wf(),
        ensures
            final(self).wf(),
            final(self).same_place(old(self)),
            old(self).disabled || entries@.len() == 0 ==> *final(self) == *old(self),
            !old(self).disabled && entries@.len() > 0 ==> final(self).index() == with_batch(
                old(self).index(),
                batch_values(entries@),
            ) && final(self).updated(
                old(self).status,
                batch_mtime(old(self).status.high_water_mtime, batch_values(entries@)),
            ),
    {
        if self.disabled || entries.len() == 0 {
            return;
        }
        let ghost start = self.index();
        let ghost batch = batch_values(entries@);
        let mut high: u64 = self.status.high_water_mtime;
        let mut i: usize = 0;
        assert(batch.take(0) =~= Seq::empty());
        while i < entries.len()
            invariant
                self.wf(),
                self.same_place(old(self)),
                self.status == old(self).status,
                i <= entries@.len(),
                batch == batch_values(entries@),
                self.index() == with_batch(start, batch.take(i as int)),
                high == batch_mtime(old(self).status.high_water_mtime, batch.take(i as int)),
            decreases entries@.len() - i,
        {
            assert(batch.take(i + 1).drop_last() =~= batch.take(i as int));
            let e = FileIndexEntry {
                mtime: entries[i].1,
                size: entries[i].2,
                symbols: types::copy_locations(entries[i].3.as_slice()),
            };
            assert(batch.take(i + 1).last() == (entries@[i as int].0@, e@));
            if high < entries[i].1 {
                high = entries[i].1;
            }
            self.put(entries[i].0.as_str(), e);
            i = i + 1;
        }
        assert(batch.take(i as int) =~= batch);
        self.record_index_update(high);
    }

    /// Drops the files whose paths are not in a list.
    pub fn remove_missing_files(&mut self, existing_paths: &Vec<String>)
        requires
            old(self).wf(),
        ensures
            final(self).wf(),
            final(self).same_place(old(self)),
            final(self).index() == kept(old(self).index(), text::texts(existing_paths@)),
            final(self).status == (SymbolIndexStatus {
                indexed_file_count: final(self).file_count(),
                ..old(self).status
            }),
    {
        let ghost v = self.index();
        let ghost ps = text::texts(existing_paths@);
        proof {
            law_only_existing_files_are_kept(v, ps, Seq::empty());
        }
        let mut out: Vec<(String, FileIndexEntry)> = Vec::new();
        let mut i: usize = 0;
        assert(file_values(out@) =~= kept(v.take(0), ps));
        while i < self.files.len()
            invariant
                i <= self.files@.len(),
                v == file_values(self.files@),
                ps == text::texts(existing_paths@),
                file_values(out@) == kept(v.take(i as int), ps),
            decreases self.files@.len() - i,
        {
            assert(v.take(i + 1).drop_last() =~= v.take(i as int));
            let f = &self.files[i];
            assert(v.take(i + 1).last() == (f.0@, f.1@));
            if text::holds(existing_paths, f.0.as_str()) {
                let ghost before = out@;
                let e = FileIndexEntry {
                    mtime: f.1.mtime,
                    size: f.1.size,
                    symbols: types::copy_locations(f.1.symbols.as_slice()),
                };
                let pair = (f.0.clone(), e);
                out.push(pair);
                assert(file_values(out@) =~= file_values(before).push((pair.0@, pair.1@)));
            }
            i = i + 1;
        }
        assert(v.take(i as int) =~= v);
        self.files = out;
        self.status.indexed_file_count = match self.stored_file_count {
            Some(n) => n,
            None => self.files.len(),
        };
    }

    /// The answer to a lookup; `stored` is what the database found, where the index is
    /// persisted.
    pub open spec fn looked_up(
        &self,
        stored: Option<Seq<Location>>,
        name: Seq<char>,
        kind: Option<SymbolType>,
        limit: Option<usize>,
    ) -> Seq<Location> {
        if self.disabled {
            Seq::empty()
        } else {
            match stored {
                Some(v) => v,
                None => found(self.index(), name, kind, limit),
            }
        }
    }

    /// Looks symbols up; `stored` is what the database found, where the index is persisted.
    pub fn get_symbols_with(
        &self,
        stored: Option<Vec<SymbolLocation>>,
        symbol: &str,
        symbol_type: Option<SymbolType>,
        limit: Option<usize>,
    ) -> (r: Vec<SymbolLocation>)
        ensures
            types::locations(r@) == self.looked_up(
                match stored {
                    Some(v) => Some(types::locations(v@)),
                    None => None,
                },
                symbol@,
                symbol_type,
                limit,
            ),
    {
        let mut out: Vec<SymbolLocation> = Vec::new();
        assert(types::locations(out@) =~= Seq::empty());
        if self.disabled {
            return out;
        }
        if let Some(v) = stored {
            return v;
        }
        let ghost v = self.index();
        let mut i: usize = 0;
        assert(v.take(0) =~= Seq::empty());
        while i < self.files.len()
            invariant
                i <= self.files@.len(),
                v == self.index(),
                types::locations(out@) == found(v.take(i as int), symbol@, symbol_type, limit),
            decreases self.files@.len() - i,
        {
            assert(v.take(i + 1).drop_last() =~= v.take(i as int));
            let f = &self.files[i];
            assert(v.take(i + 1).last() == (f.0@, f.1@));
            assert(types::locations(out@).len() == out@.len());
            take_from_file(&f.0, &f.1.symbols, symbol, symbol_type, limit, &mut out);
            i = i + 1;
        }
        assert(v.take(i as int) =~= v);
        out
    }

    /// Looks symbols up in memory.
    pub fn get_symbols(
        &self,
        symbol: &str,
        symbol_type: Option<SymbolType>,
        limit: Option<usize>,
    ) -> (r: Vec<SymbolLocation>)
        ensures
            types::locations(r@) == self.looked_up(None, symbol@, symbol_type, limit),
    {
        self.get_symbols_with(None, symbol, symbol_type, limit)
    }

    /// Looks references up in memory.
    pub fn get_references(&self, symbol: &str, limit: Option<usize>) -> (r: Vec<SymbolLocation>)
        ensures
            types::locations(r@) == self.looked_up(
                None,
                symbol@,
                Some(SymbolType::Reference),
                limit,
            ),
    {
        self.get_symbols(symbol, Some(SymbolType::Reference), limit)
    }

    /// Looks definitions up in memory.
    pub fn get_definitions(&self, symbol: &str, limit: Option<usize>) -> (r: Vec<SymbolLocation>)
        ensures
            types::locations(r@) == self.looked_up(
                None,
                symbol@,
                Some(SymbolType::Definition),
                limit,
            ),
    {
        self.get_symbols(symbol, Some(SymbolType::Definition), limit)
    }

    /// The root of the project.
    pub fn get_project_root(&self) -> (r: &str)
        ensures
            r@ == self.project_root@,
    {
        self.project_root.as_str()
    }

    /// How far the index has come.
    pub fn status(&self) -> (r: SymbolIndexStatus)
        ensures
            r == self.status,
    {
        self.status
    }

    /// Whether the database holds files.
    pub fn has_usable_persisted_index(&self) -> (r: bool)
        ensures
            r == self.has_stored_files(),
    {
        match self.stored_file_count {
            Some(n) => n > 0,
            None => false,
        }
    }

    /// Counts the walk as complete: the files of the database are those of the workspace.
    pub fn mark_persisted_index_ready(&mut self)
        ensures
            final(self).files == old(self).files,
            final(self).same_place(old(self)),
            final(self).status == (SymbolIndexStatus {
                workspace_file_count: old(self).status.indexed_file_count,
                initial_walk_complete: true,
                ..old(self).status
            }),
    {
        self.status.workspace_file_count = self.status.indexed_file_count;
        self.status.initial_walk_complete = true;
    }

    /// Counts the walk as begun, with a number of files before it.
    pub fn begin_initial_walk(&mut self, workspace_file_count: usize)
        ensures
            final(self).files == old(self).files,
            final(self).same_place(old(self)),
            final(self).status == (SymbolIndexStatus {
                workspace_file_count,
                indexed_file_count: 0,
                initial_walk_complete: false,
                ..old(self).status
            }),
    {
        self.status.workspace_file_count = workspace_file_count;
        self.status.indexed_file_count = 0;
        self.status.initial_walk_complete = false;
    }

    /// Counts the walk as complete, with a number of files behind it.
    pub fn finish_initial_walk(&mut self, workspace_file_count: usize)
        ensures
            final(self).files == old(self).files,
            final(self).same_place(old(self)),
            final(self).status.workspace_file_count == workspace_file_count,
            final(self).status.indexed_file_count == old(self).file_count(),
            final(self).status.initial_walk_complete,
            final(self).status.last_indexed_at is Some,
            final(self).status.high_water_mtime == old(self).status.high_water_mtime,
    {
        self.status.workspace_file_count = workspace_file_count;
        self.status.indexed_file_count = match self.stored_file_count {
            Some(n) => n,
            None => self.files.len(),
        };
        self.status.initial_walk_complete = true;
        self.status.last_indexed_at = Some(std::time::SystemTime::now());
    }

    /// Makes ready for a walk: nothing is to be walked where the index is switched off, and
    /// where the database holds files the walk counts as complete already. Gives the root
    /// of the project that is to be walked.
    pub fn prepare_walk(&mut self) -> (r: Option<String>)
        ensures
            final(self).files == old(self).files,
            final(self).same_place(old(self)),
            r is None <==> old(self).disabled,
            r matches Some(s) ==> s@ == old(self).project_root@,
            final(self).status == (if !old(self).disabled && old(self).has_stored_files() {
                SymbolIndexStatus {
                    workspace_file_count: old(self).status.indexed_file_count,
                    initial_walk_complete: true,
                    ..old(self).status
                }
            } else {
                old(self).status
            }),
    {
        if self.disabled {
            return None;
        }
        if self.has_usable_persisted_index() {
            self.mark_persisted_index_ready();
        }
        Some(self.project_root.clone())
    }
}

} // verus!
