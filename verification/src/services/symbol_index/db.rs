//! The database of the symbol index: its tables, what is written to them, and how they are
//! asked.

use crate::services::symbol_index::types;
use crate::services::symbol_index::types::{Location, SymbolLocation, SymbolType};
use crate::text;
use vstd::prelude::*;

verus! {

/// The tables of the database.
pub const SCHEMA: &'static str =
    "
PRAGMA foreign_keys = ON;

CREATE TABLE IF NOT EXISTS files (
    path TEXT PRIMARY KEY,
    mtime INTEGER NOT NULL,
    size INTEGER NOT NULL
);

CREATE TABLE IF NOT EXISTS symbols (
    id INTEGER PRIMARY KEY AUTOINCREMENT,
    file_path TEXT NOT NULL,
    name TEXT NOT NULL,
    type TEXT NOT NULL,
    kind TEXT,
    start_line INTEGER NOT NULL,
    start_column INTEGER NOT NULL,
    end_line INTEGER NOT NULL,
    end_column INTEGER NOT NULL,
    FOREIGN KEY (file_path) REFERENCES files(path) ON DELETE CASCADE
);

CREATE INDEX IF NOT EXISTS idx_symbols_name ON symbols(name);
CREATE INDEX IF NOT EXISTS idx_symbols_file_path ON symbols(file_path);
";

/// A value that is bound to a statement.
#[derive(Debug, Clone, PartialEq)]
pub enum DbValue {
    Text(String),
    Unsigned(u64),
    Signed(i64),
    Null,
}

/// A statement with the values that are bound to it.
#[derive(Debug, Clone, PartialEq)]
pub struct DbStatement {
    pub sql: String,
    pub params: Vec<DbValue>,
}

/// The mathematical value of a bound value.
pub enum Bound {
    Text(Seq<char>),
    Number(int),
    Null,
}

/// The mathematical value of a statement.
pub struct Statement {
    pub sql: Seq<char>,
    pub params: Seq<Bound>,
}

impl View for DbValue {
    type V = Bound;

    open spec fn view(&self) -> Bound {
        match *self {
            DbValue::Text(s) => Bound::Text(s@),
            DbValue::Unsigned(n) => Bound::Number(n as int),
            DbValue::Signed(n) => Bound::Number(n as int),
            DbValue::Null => Bound::Null,
        }
    }
}

/// The values that are bound to a statement.
pub open spec fn bound(v: Seq<DbValue>) -> Seq<Bound> {
    v.map_values(|b: DbValue| b@)
}

impl View for DbStatement {
    type V = Statement;

    open spec fn view(&self) -> Statement {
        Statement { sql: self.sql@, params: bound(self.params@) }
    }
}

/// The values of a list of statements.
pub open spec fn statements(v: Seq<DbStatement>) -> Seq<Statement> {
    v.map_values(|s: DbStatement| s@)
}

// ---------------------------------------------------------------------------
// Symbol types
// ---------------------------------------------------------------------------

/// The text of a symbol type.
pub open spec fn name_of_type(t: SymbolType) -> Seq<char> {
    match t {
        SymbolType::Definition => "definition"@,
        SymbolType::Reference => "reference"@,
    }
}

/// The symbol type that a text stands for.
pub open spec fn type_called(s: Seq<char>) -> SymbolType {
    if s == "definition"@ {
        SymbolType::Definition
    } else {
        SymbolType::Reference
    }
}

/// The text of a symbol type stands for it.
pub proof fn law_types_round_trip(t: SymbolType)
    ensures
        type_called(name_of_type(t)) == t,
{
    reveal_strlit("definition");
    reveal_strlit("reference");
    assert("definition"@[0] == 'd');
    assert("reference"@[0] == 'r');
}

/// The text of a symbol type.
pub fn type_text(t: SymbolType) -> (r: &'static str)
    ensures
        r@ == name_of_type(t),
{
    match t {
        SymbolType::Definition => "definition",
        SymbolType::Reference => "reference",
    }
}

// ---------------------------------------------------------------------------
// Writing
// ---------------------------------------------------------------------------

/// A change of the tables.
pub enum Change {
    /// Deletes the symbols of a file.
    Forget(Seq<char>),
    /// Puts a file with its time and size.
    File(Seq<char>, int, int),
    /// Adds a symbol of a file.
    Symbol(Seq<char>, Location),
}

/// The statement that makes a change.
pub open spec fn statement_of(c: Change) -> Statement {
    match c {
        Change::Forget(path) => Statement {
            sql: "DELETE FROM symbols WHERE file_path = ?1"@,
            params: seq![Bound::Text(path)],
        },
        Change::File(path, mtime, size) => Statement {
            sql: "INSERT OR REPLACE INTO files (path, mtime, size) VALUES (?1, ?2, ?3)"@,
            params: seq![Bound::Text(path), Bound::Number(mtime), Bound::Number(size)],
        },
        Change::Symbol(path, s) => Statement {
            sql: "INSERT INTO symbols (file_path, name, type, kind, start_line, start_column, end_line, end_column) VALUES (?1, ?2, ?3, ?4, ?5, ?6, ?7, ?8)"@,
            params: seq![
                Bound::Text(path),
                Bound::Text(s.name),
                Bound::Text(name_of_type(s.symbol_type)),
                match s.kind {
                    Some(k) => Bound::Text(k),
                    None => Bound::Null,
                },
                Bound::Number(s.start_line as int),
                Bound::Number(s.start_column as int),
                Bound::Number(s.end_line as int),
                Bound::Number(s.end_column as int),
            ],
        },
    }
}

/// The changes that write a file: its symbols are deleted, it is put, and its symbols are
/// added.
pub open spec fn file_changes(path: Seq<char>, mtime: u64, size: u64, symbols: Seq<Location>) -> Seq<
    Change,
> {
    seq![Change::Forget(path), Change::File(path, mtime as int, size as int)]
        + symbols.map_values(|s: Location| Change::Symbol(path, s))
}

/// The changes that write the files of a batch, in order.
pub open spec fn batch_changes(v: Seq<(String, u64, u64, Vec<SymbolLocation>)>) -> Seq<Change>
    decreases v.len(),
{
    if v.len() == 0 {
        Seq::empty()
    } else {
        let e = v.last();
        batch_changes(v.drop_last()) + file_changes(e.0@, e.1, e.2, types::locations(e.3@))
    }
}

/// The statements that make changes.
pub open spec fn statements_of(v: Seq<Change>) -> Seq<Statement> {
    v.map_values(|c: Change| statement_of(c))
}

/// The tables: each file with its time and size, and the symbols with their files.
pub struct Tables {
    pub files: Map<Seq<char>, (int, int)>,
    pub symbols: Seq<(Seq<char>, Location)>,
}

/// The symbols that are not of a file.
pub open spec fn others(v: Seq<(Seq<char>, Location)>, path: Seq<char>) -> Seq<
    (Seq<char>, Location),
>
    decreases v.len(),
{
    if v.len() == 0 {
        v
    } else if v.last().0 == path {
        others(v.drop_last(), path)
    } else {
        others(v.drop_last(), path).push(v.last())
    }
}

impl Tables {
    /// The tables after a change.
    pub open spec fn change(self, c: Change) -> Tables {
        match c {
            Change::Forget(path) => Tables { symbols: others(self.symbols, path), ..self },
            Change::File(path, mtime, size) => Tables {
                files: self.files.insert(path, (mtime, size)),
                ..self
            },
            Change::Symbol(path, s) => Tables { symbols: self.symbols.push((path, s)), ..self },
        }
    }

    /// The tables after changes.
    pub open spec fn changes(self, v: Seq<Change>) -> Tables
        decreases v.len(),
    {
        if v.len() == 0 {
            self
        } else {
            self.changes(v.drop_last()).change(v.last())
        }
    }
}

/// Writing a file replaces what the tables hold of it: its symbols are exactly the given
/// ones, after those of the other files, and only its own time and size change.
pub proof fn law_writing_replaces_a_file(
    t: Tables,
    path: Seq<char>,
    mtime: u64,
    size: u64,
    symbols: Seq<Location>,
)
    ensures
        t.changes(file_changes(path, mtime, size, symbols)).files == t.files.insert(
            path,
            (mtime as int, size as int),
        ),
        t.changes(file_changes(path, mtime, size, symbols)).symbols == others(t.symbols, path)
            + symbols.map_values(|s: Location| (path, s)),
    decreases symbols.len(),
{
    let all = file_changes(path, mtime, size, symbols);
    let rows = symbols.map_values(|s: Location| (path, s));
    if symbols.len() == 0 {
        let forget = Change::Forget(path);
        let file = Change::File(path, mtime as int, size as int);
        assert(all =~= seq![forget, file]);
        assert(all.drop_last() =~= seq![forget]);
        assert(seq![forget].drop_last() =~= Seq::<Change>::empty());
        assert(t.changes(Seq::empty()) == t);
        assert(t.changes(seq![forget]) == t.change(forget));
        assert(t.changes(all) == t.change(forget).change(file));
        assert(others(t.symbols, path) + rows =~= others(t.symbols, path));
    } else {
        let p = symbols.drop_last();
        law_writing_replaces_a_file(t, path, mtime, size, p);
        assert(all.drop_last() =~= file_changes(path, mtime, size, p));
        assert(all.last() == Change::Symbol(path, symbols.last()));
        assert((others(t.symbols, path) + p.map_values(|s: Location| (path, s))).push(
            (path, symbols.last()),
        ) =~= others(t.symbols, path) + rows);
    }
}

/// After a file was written, the tables hold of it exactly the symbols that were given, and
/// every symbol of another file is still there.
pub proof fn law_read_gives_back_what_was_written(
    t: Tables,
    path: Seq<char>,
    mtime: u64,
    size: u64,
    symbols: Seq<Location>,
    row: (Seq<char>, Location),
)
    ensures
        ({
            let after = t.changes(file_changes(path, mtime, size, symbols)).symbols;
            if row.0 == path {
                after.contains(row) <==> symbols.contains(row.1)
            } else {
                after.contains(row) <==> t.symbols.contains(row)
            }
        }),
{
    law_writing_replaces_a_file(t, path, mtime, size, symbols);
    lemma_others(t.symbols, path, row);
    let kept = others(t.symbols, path);
    let new = symbols.map_values(|s: Location| (path, s));
    let after = kept + new;
    if kept.contains(row) {
        let k = choose|k: int| 0 <= k < kept.len() && kept[k] == row;
        assert(after[k] == row);
    }
    if symbols.contains(row.1) && row.0 == path {
        let k = choose|k: int| 0 <= k < symbols.len() && symbols[k] == row.1;
        assert(new[k] == row);
        assert(after[kept.len() + k] == row);
    }
    if after.contains(row) {
        let k = choose|k: int| 0 <= k < after.len() && after[k] == row;
        if k < kept.len() {
            assert(kept[k] == row);
        } else {
            assert(new[k - kept.len()] == row);
            assert(symbols[k - kept.len()] == row.1);
        }
    }
}

proof fn lemma_others(v: Seq<(Seq<char>, Location)>, path: Seq<char>, row: (Seq<char>, Location))
    ensures
        others(v, path).contains(row) <==> v.contains(row) && row.0 != path,
    decreases v.len(),
{
    if v.len() > 0 {
        let p = v.drop_last();
        lemma_others(p, path, row);
        let kept = others(p, path);
        let all = others(v, path);
        if v.contains(row) {
            let k = choose|k: int| 0 <= k < v.len() && v[k] == row;
            if k < p.len() {
                assert(p[k] == row);
            }
        }
        if p.contains(row) {
            let k = choose|k: int| 0 <= k < p.len() && p[k] == row;
            assert(v[k] == row);
        }
        if kept.contains(row) {
            let k = choose|k: int| 0 <= k < kept.len() && kept[k] == row;
            assert(all[k] == row);
        }
        if v.last() == row {
            assert(v[v.len() - 1] == row);
            if row.0 != path {
                assert(all[all.len() - 1] == row);
            }
        }
        if all.contains(row) {
            let k = choose|k: int| 0 <= k < all.len() && all[k] == row;
            if k < kept.len() {
                assert(kept[k] == row);
            }
        }
    }
}

fn text_value(s: &str) -> (r: DbValue)
    ensures
        r@ == Bound::Text(s@),
{
    DbValue::Text(s.to_owned())
}

fn push_statement(v: &mut Vec<DbStatement>, s: DbStatement)
    ensures
        statements(final(v)@) == statements(old(v)@).push(s@),
{
    let ghost x = s@;
    v.push(s);
    assert(statements(v@) =~= statements(old(v)@).push(x));
}

fn forget_statement(path: &str) -> (r: DbStatement)
    ensures
        r@ == statement_of(Change::Forget(path@)),
{
    let mut params: Vec<DbValue> = Vec::new();
    params.push(text_value(path));
    assert(bound(params@) =~= seq![Bound::Text(path@)]);
    DbStatement { sql: "DELETE FROM symbols WHERE file_path = ?1".to_owned(), params }
}

fn file_statement(path: &str, mtime: u64, size: u64) -> (r: DbStatement)
    ensures
        r@ == statement_of(Change::File(path@, mtime as int, size as int)),
{
    let mut params: Vec<DbValue> = Vec::new();
    params.push(text_value(path));
    params.push(DbValue::Unsigned(mtime));
    params.push(DbValue::Unsigned(size));
    assert(bound(params@) =~= seq![
        Bound::Text(path@),
        Bound::Number(mtime as int),
        Bound::Number(size as int),
    ]);
    DbStatement {
        sql: "INSERT OR REPLACE INTO files (path, mtime, size) VALUES (?1, ?2, ?3)".to_owned(),
        params,
    }
}

fn symbol_statement(path: &str, s: &SymbolLocation) -> (r: DbStatement)
    ensures
        r@ == statement_of(Change::Symbol(path@, s@)),
{
    let mut params: Vec<DbValue> = Vec::new();
    params.push(text_value(path));
    params.push(text_value(s.name.as_str()));
    params.push(text_value(type_text(s.symbol_type)));
    match &s.kind {
        Some(k) => params.push(text_value(k.as_str())),
        None => params.push(DbValue::Null),
    }
    params.push(DbValue::Unsigned(s.start_line as u64));
    params.push(DbValue::Unsigned(s.start_column as u64));
    params.push(DbValue::Unsigned(s.end_line as u64));
    params.push(DbValue::Unsigned(s.end_column as u64));
    assert(bound(params@) =~= statement_of(Change::Symbol(path@, s@)).params);
    DbStatement {
        sql: "INSERT INTO symbols (file_path, name, type, kind, start_line, start_column, end_line, end_column) VALUES (?1, ?2, ?3, ?4, ?5, ?6, ?7, ?8)".to_owned(),
        params,
    }
}

fn push_file(
    out: &mut Vec<DbStatement>,
    rel_path: &str,
    mtime: u64,
    size: u64,
    symbols: &[SymbolLocation],
)
    ensures
        statements(final(out)@) == statements(old(out)@) + statements_of(
            file_changes(rel_path@, mtime, size, types::locations(symbols@)),
        ),
{
    let ghost start = statements(out@);
    let ghost ls = types::locations(symbols@);
    let ghost all = statements_of(file_changes(rel_path@, mtime, size, ls));
    push_statement(out, forget_statement(rel_path));
    push_statement(out, file_statement(rel_path, mtime, size));
    let mut i: usize = 0;
    assert(all[0] == statement_of(Change::Forget(rel_path@)));
    assert(all[1] == statement_of(Change::File(rel_path@, mtime as int, size as int)));
    assert(statements(out@) =~= start + all.take(2));
    while i < symbols.len()
        invariant
            i <= symbols@.len(),
            ls == types::locations(symbols@),
            all == statements_of(file_changes(rel_path@, mtime, size, ls)),
            statements(out@) == start + all.take(2 + i as int),
        decreases symbols@.len() - i,
    {
        assert(ls[i as int] == symbols@[i as int]@);
        assert(all[2 + i as int] == statement_of(Change::Symbol(rel_path@, ls[i as int])));
        push_statement(out, symbol_statement(rel_path, &symbols[i]));
        assert(statements(out@) =~= start + all.take(3 + i as int));
        i = i + 1;
    }
    assert(all.take(2 + i as int) =~= all);
}

/// The statements that write a file, to be run in one transaction.
pub fn update_file_symbols(
    rel_path: &str,
    mtime: u64,
    size: u64,
    symbols: &[SymbolLocation],
) -> (r: Vec<DbStatement>)
    ensures
        statements(r@) == statements_of(
            file_changes(rel_path@, mtime, size, types::locations(symbols@)),
        ),
{
    let mut out: Vec<DbStatement> = Vec::new();
    push_file(&mut out, rel_path, mtime, size, symbols);
    assert(statements(out@) =~= statements_of(
        file_changes(rel_path@, mtime, size, types::locations(symbols@)),
    ));
    out
}

/// The statements that write the files of a batch, to be run in one transaction.
pub fn update_files_symbols_batch(
    entries: &Vec<(String, u64, u64, Vec<SymbolLocation>)>,
) -> (r: Vec<DbStatement>)
    ensures
        statements(r@) == statements_of(batch_changes(entries@)),
{
    let mut out: Vec<DbStatement> = Vec::new();
    let mut i: usize = 0;
    assert(statements(out@) =~= statements_of(batch_changes(entries@.take(0))));
    while i < entries.len()
        invariant
            i <= entries@.len(),
            statements(out@) == statements_of(batch_changes(entries@.take(i as int))),
        decreases entries@.len() - i,
    {
        assert(entries@.take(i + 1).drop_last() =~= entries@.take(i as int));
        let e = &entries[i];
        push_file(&mut out, e.0.as_str(), e.1, e.2, e.3.as_slice());
        assert(statements(out@) =~= statements_of(batch_changes(entries@.take(i + 1))));
        i = i + 1;
    }
    assert(entries@.take(i as int) =~= entries@);
    out
}

// ---------------------------------------------------------------------------
// Reading
// ---------------------------------------------------------------------------

/// A limit as the database takes it: a signed number, where a negative one is no limit.
pub open spec fn signed_limit(n: usize) -> int {
    if n <= i64::MAX {
        n as int
    } else {
        n - 0x1_0000_0000_0000_0000
    }
}

/// The query for symbols by their name, with a type and a limit where they are asked for.
pub open spec fn select(name: Seq<char>, kind: Option<SymbolType>, limit: Option<usize>) -> Statement {
    let base = "SELECT file_path, name, type, kind, start_line, start_column, end_line, end_column FROM symbols WHERE name = ?1"@;
    let named = seq![Bound::Text(name)];
    match (kind, limit) {
        (None, None) => Statement { sql: base, params: named },
        (Some(k), None) => Statement {
            sql: base + " AND type = ?2"@,
            params: named.push(Bound::Text(name_of_type(k))),
        },
        (None, Some(n)) => Statement {
            sql: base + " LIMIT ?2"@,
            params: named.push(Bound::Number(signed_limit(n))),
        },
        (Some(k), Some(n)) => Statement {
            sql: base + " AND type = ?2"@ + " LIMIT ?3"@,
            params: named.push(Bound::Text(name_of_type(k))).push(Bound::Number(signed_limit(n))),
        },
    }
}

/// The query for symbols by their name.
pub fn get_symbols_by_name(
    name: &str,
    symbol_type: Option<SymbolType>,
    limit: Option<usize>,
) -> (r: DbStatement)
    ensures
        r@ == select(name@, symbol_type, limit),
{
    let mut sql = "SELECT file_path, name, type, kind, start_line, start_column, end_line, end_column FROM symbols WHERE name = ?1".to_owned();
    let mut params: Vec<DbValue> = Vec::new();
    params.push(text_value(name));
    let ghost want = select(name@, symbol_type, limit).params;
    if let Some(k) = symbol_type {
        text::push_text(&mut sql, " AND type = ?2");
        params.push(text_value(type_text(k)));
    }
    if let Some(n) = limit {
        if symbol_type.is_some() {
            text::push_text(&mut sql, " LIMIT ?3");
        } else {
            text::push_text(&mut sql, " LIMIT ?2");
        }
        let wide: i128 = n as i128;
        let signed: i64 = if wide <= 0x7fff_ffff_ffff_ffff {
            wide as i64
        } else {
            (wide - 0x1_0000_0000_0000_0000) as i64
        };
        params.push(DbValue::Signed(signed));
    }
    assert(bound(params@) =~= want);
    DbStatement { sql, params }
}

/// A row of the answer to a query for symbols.
#[derive(Debug, Clone)]
pub struct SymbolRow {
    pub file_path: String,
    pub name: String,
    pub type_text: String,
    pub kind: Option<String>,
    pub start_line: usize,
    pub start_column: usize,
    pub end_line: usize,
    pub end_column: usize,
}

/// The symbol of a row.
pub fn row_to_symbol_location(row: SymbolRow) -> (r: SymbolLocation)
    ensures
        r@ == (Location {
            path: Some(row.file_path@),
            name: row.name@,
            start_line: row.start_line,
            start_column: row.start_column,
            end_line: row.end_line,
            end_column: row.end_column,
            symbol_type: type_called(row.type_text@),
            kind: text::opt(row.kind),
        }),
{
    let symbol_type = if text::same(row.type_text.as_str(), "definition") {
        SymbolType::Definition
    } else {
        SymbolType::Reference
    };
    SymbolLocation {
        path: Some(row.file_path),
        name: row.name,
        start_line: row.start_line,
        start_column: row.start_column,
        end_line: row.end_line,
        end_column: row.end_column,
        symbol_type,
        kind: row.kind,
    }
}

} // verus!
