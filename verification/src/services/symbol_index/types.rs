//! What the symbol index holds.

use crate::text;
use vstd::prelude::*;

verus! {

/// Whether a symbol is a definition or reference.
#[derive(Debug, Clone, Copy, PartialEq, Eq, Structural)]
pub enum SymbolType {
    Definition,
    Reference,
}

/// A symbol location in a file.
#[derive(Debug, Clone, PartialEq)]
pub struct SymbolLocation {
    pub path: Option<String>,
    pub name: String,
    pub start_line: usize,
    pub start_column: usize,
    pub end_line: usize,
    pub end_column: usize,
    pub symbol_type: SymbolType,
    pub kind: Option<String>,
}

/// The mathematical value of a symbol location.
pub struct Location {
    pub path: Option<Seq<char>>,
    pub name: Seq<char>,
    pub start_line: usize,
    pub start_column: usize,
    pub end_line: usize,
    pub end_column: usize,
    pub symbol_type: SymbolType,
    pub kind: Option<Seq<char>>,
}

impl View for SymbolLocation {
    type V = Location;

    open spec fn view(&self) -> Location {
        Location {
            path: text::opt(self.path),
            name: self.name@,
            start_line: self.start_line,
            start_column: self.start_column,
            end_line: self.end_line,
            end_column: self.end_column,
            symbol_type: self.symbol_type,
            kind: text::opt(self.kind),
        }
    }
}

/// The values of a list of locations.
pub open spec fn locations(v: Seq<SymbolLocation>) -> Seq<Location> {
    v.map_values(|s: SymbolLocation| s@)
}

impl SymbolLocation {
    /// A location with the same value.
    pub fn copy(&self) -> (r: SymbolLocation)
        ensures
            r@ == self@,
    {
        SymbolLocation {
            path: text::copy_opt(&self.path),
            name: self.name.clone(),
            start_line: self.start_line,
            start_column: self.start_column,
            end_line: self.end_line,
            end_column: self.end_column,
            symbol_type: self.symbol_type,
            kind: text::copy_opt(&self.kind),
        }
    }
}

/// A list with the same locations.
pub fn copy_locations(v: &[SymbolLocation]) -> (r: Vec<SymbolLocation>)
    ensures
        locations(r@) == locations(v@),
{
    let mut out: Vec<SymbolLocation> = Vec::new();
    let ghost all = locations(v@);
    let mut i: usize = 0;
    assert(locations(out@) =~= all.take(0));
    while i < v.len()
        invariant
            i <= v@.len(),
            all == locations(v@),
            locations(out@) == all.take(i as int),
        decreases v@.len() - i,
    {
        let s = v[i].copy();
        assert(all[i as int] == s@);
        let ghost before = out@;
        out.push(s);
        assert(locations(out@) =~= locations(before).push(s@));
        assert(locations(out@) =~= all.take(i + 1));
        i = i + 1;
    }
    assert(all.take(i as int) =~= all);
    out
}

/// An entry in the symbol index for a single file.
#[derive(Debug, Clone)]
pub struct FileIndexEntry {
    pub mtime: u64,
    pub size: u64,
    pub symbols: Vec<SymbolLocation>,
}

/// The mathematical value of an entry.
pub struct Entry {
    pub mtime: u64,
    pub size: u64,
    pub symbols: Seq<Location>,
}

impl View for FileIndexEntry {
    type V = Entry;

    open spec fn view(&self) -> Entry {
        Entry { mtime: self.mtime, size: self.size, symbols: locations(self.symbols@) }
    }
}

/// A point in time of the standard library.
#[verifier::external_type_specification]
#[verifier::external_body]
pub struct ExSystemTime(std::time::SystemTime);

/// How far the index has come.
#[derive(Debug, Clone, Copy)]
pub struct SymbolIndexStatus {
    pub indexed_file_count: usize,
    pub workspace_file_count: usize,
    pub initial_walk_complete: bool,
    pub last_indexed_at: Option<std::time::SystemTime>,
    pub high_water_mtime: u64,
}

impl Default for SymbolIndexStatus {
    fn default() -> (r: Self)
        ensures
            r == (SymbolIndexStatus {
                indexed_file_count: 0,
                workspace_file_count: 0,
                initial_walk_complete: false,
                last_indexed_at: None,
                high_water_mtime: 0,
            }),
    {
        SymbolIndexStatus {
            indexed_file_count: 0,
            workspace_file_count: 0,
            initial_walk_complete: false,
            last_indexed_at: None,
            high_water_mtime: 0,
        }
    }
}

/// What the database knows of a file.
#[derive(Debug, Clone, Copy)]
pub struct StoredFile {
    pub mtime: u64,
    pub size: u64,
    pub has_symbols: bool,
}

} // verus!
