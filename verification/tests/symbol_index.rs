//! The symbol index, its database and the walk that fills it.

use sned::services::symbol_index::db::{
    get_symbols_by_name, row_to_symbol_location, update_file_symbols, update_files_symbols_batch,
    DbStatement, DbValue, SymbolRow, SCHEMA,
};
use sned::services::symbol_index::extract::parse_symbols;
use sned::services::symbol_index::walk::{
    has_language, is_candidate, load_parsers_for_candidates, prepare_index_entry,
    sanitize_thread_name, walks_into, IndexCandidate, InitialWalk,
};
use sned::services::symbol_index::{
    extract_symbols_for_indexing, StoredFile, SymbolIndexService, SymbolLocation, SymbolType,
    INDEX_DIR,
};
use sned::services::tree_sitter::load_required_language_parsers;

fn make_symbol(name: &str, line: usize, st: SymbolType) -> SymbolLocation {
    SymbolLocation {
        path: None,
        name: name.to_string(),
        start_line: line,
        start_column: 0,
        end_line: line,
        end_column: name.len(),
        symbol_type: st,
        kind: None,
    }
}

#[test]
fn test_symbol_index_basic() {
    let mut service = SymbolIndexService::new("/tmp/test".to_string());
    let symbols = vec![make_symbol("test_func", 10, SymbolType::Definition)];
    service.index_file("src/main.rs", 1234567890, 1024, &symbols);
    let defs = service.get_definitions("test_func", None);
    assert_eq!(defs.len(), 1);
    assert_eq!(defs[0].start_line, 10);
}

#[test]
fn test_get_symbols_comparison_regression() {
    let mut service = SymbolIndexService::new("/tmp/test".to_string());
    let symbols = vec![
        make_symbol("foo", 1, SymbolType::Definition),
        make_symbol("foobar", 2, SymbolType::Definition),
        make_symbol("foo", 3, SymbolType::Reference),
    ];
    service.index_file("src/main.rs", 1234567890, 1024, &symbols);

    let foo_results = service.get_symbols("foo", None, None);
    assert_eq!(foo_results.len(), 2);

    let foobar_results = service.get_symbols("foobar", None, None);
    assert_eq!(foobar_results.len(), 1);
    assert_eq!(foobar_results[0].start_line, 2);

    let missing = service.get_symbols("nonexistent", None, None);
    assert!(missing.is_empty());

    let empty = service.get_symbols("", None, None);
    assert!(empty.is_empty());
}

#[test]
fn test_get_symbols_with_type_filter() {
    let mut service = SymbolIndexService::new("/tmp/test".to_string());
    let symbols = vec![
        make_symbol("my_symbol", 1, SymbolType::Definition),
        make_symbol("my_symbol", 5, SymbolType::Reference),
    ];
    service.index_file("src/lib.rs", 1234567890, 1024, &symbols);

    let defs = service.get_definitions("my_symbol", None);
    assert_eq!(defs.len(), 1);
    assert_eq!(defs[0].symbol_type, SymbolType::Definition);

    let refs = service.get_references("my_symbol", None);
    assert_eq!(refs.len(), 1);
    assert_eq!(refs[0].symbol_type, SymbolType::Reference);
}

#[test]
fn test_get_symbols_limit() {
    let mut service = SymbolIndexService::new("/tmp/test".to_string());
    let symbols: Vec<_> = (0..10)
        .map(|i| SymbolLocation {
            path: None,
            name: "repeated".to_string(),
            start_line: i,
            start_column: 0,
            end_line: i,
            end_column: 8,
            symbol_type: SymbolType::Reference,
            kind: None,
        })
        .collect();
    service.index_file("src/main.rs", 1234567890, 1024, &symbols);

    let all = service.get_symbols("repeated", None, None);
    assert_eq!(all.len(), 10);

    let limited = service.get_symbols("repeated", None, Some(3));
    assert_eq!(limited.len(), 3);
}

#[test]
fn test_safe_indexing_preserves_matching_known_symbols() {
    let mut service = SymbolIndexService::new("/tmp/test".to_string());
    service.index_file(
        "src/lib.rs",
        10,
        20,
        &[make_symbol("stable_symbol", 1, SymbolType::Definition)],
    );

    service.index_file_safe("src/lib.rs", 10, 20, &[]);

    assert_eq!(service.get_definitions("stable_symbol", None).len(), 1);
}

#[test]
fn test_initial_walk_status_counts_indexed_files_separately() {
    let mut service = SymbolIndexService::new("/tmp/test".to_string());
    service.index_file(
        "src/main.rs",
        123,
        10,
        &[make_symbol("main", 0, SymbolType::Definition)],
    );

    service.finish_initial_walk(3);
    let status = service.status();

    assert_eq!(status.workspace_file_count, 3);
    assert_eq!(status.indexed_file_count, 1);
}

#[test]
fn test_persisted_index_is_ready_before_workspace_refresh() {
    let mut service = SymbolIndexService::new("/tmp/test".to_string());
    service.status.indexed_file_count = 42;

    service.mark_persisted_index_ready();

    let status = service.status();
    assert!(status.initial_walk_complete);
    assert_eq!(status.workspace_file_count, 42);
}

#[test]
fn test_get_symbols_across_multiple_files() {
    let mut service = SymbolIndexService::new("/tmp/test".to_string());
    service.index_file(
        "src/a.rs",
        1234567890,
        100,
        &[make_symbol("shared", 1, SymbolType::Definition)],
    );
    service.index_file(
        "src/b.rs",
        1234567891,
        100,
        &[make_symbol("shared", 10, SymbolType::Reference)],
    );

    let results = service.get_symbols("shared", None, None);
    assert_eq!(results.len(), 2);

    let lines: Vec<_> = results.iter().map(|s| s.start_line).collect();
    assert!(lines.contains(&1));
    assert!(lines.contains(&10));
}

#[test]
fn test_extract_symbols_rust() {
    let content = "fn hello() {}\nstruct Foo {}\n";
    let parsers =
        load_required_language_parsers(&["test.rs"]).unwrap();
    let symbols = extract_symbols_for_indexing("test.rs", content, &parsers).unwrap();
    assert!(!symbols.is_empty());
    let names: Vec<&str> = symbols.iter().map(|s| s.name.as_str()).collect();
    assert!(names.contains(&"hello"), "Expected 'hello' in {:?}", names);
}

/// The database, run with SQLite in memory.
struct SymbolIndexDatabase {
    conn: rusqlite::Connection,
    dirty: bool,
}

fn values(params: &[DbValue]) -> Vec<rusqlite::types::Value> {
    params
        .iter()
        .map(|p| match p {
            DbValue::Text(s) => rusqlite::types::Value::Text(s.clone()),
            DbValue::Unsigned(n) => rusqlite::types::Value::Integer(*n as i64),
            DbValue::Signed(n) => rusqlite::types::Value::Integer(*n),
            DbValue::Null => rusqlite::types::Value::Null,
        })
        .collect()
}

impl SymbolIndexDatabase {
    fn open_in_memory() -> rusqlite::Result<Self> {
        let conn = rusqlite::Connection::open_in_memory()?;
        conn.execute_batch(SCHEMA)?;
        Ok(Self { conn, dirty: false })
    }

    fn run(&mut self, statements: &[DbStatement]) -> rusqlite::Result<()> {
        let tx = self.conn.transaction()?;
        for s in statements {
            tx.execute(&s.sql, rusqlite::params_from_iter(values(&s.params)))?;
        }
        tx.commit()?;
        self.dirty = true;
        Ok(())
    }

    fn update_file_symbols(
        &mut self,
        rel_path: &str,
        mtime: u64,
        size: u64,
        symbols: &[SymbolLocation],
    ) -> rusqlite::Result<()> {
        self.run(&update_file_symbols(rel_path, mtime, size, symbols))
    }

    fn update_files_symbols_batch(
        &mut self,
        entries: &Vec<(String, u64, u64, Vec<SymbolLocation>)>,
    ) -> rusqlite::Result<()> {
        self.run(&update_files_symbols_batch(entries))
    }

    fn get_symbols_by_name(
        &self,
        name: &str,
        symbol_type: Option<SymbolType>,
        limit: Option<usize>,
    ) -> Vec<SymbolLocation> {
        let query = get_symbols_by_name(name, symbol_type, limit);
        let mut stmt = self.conn.prepare(&query.sql).unwrap();
        let rows = stmt
            .query_map(rusqlite::params_from_iter(values(&query.params)), |row| {
                Ok(SymbolRow {
                    file_path: row.get(0)?,
                    name: row.get(1)?,
                    type_text: row.get(2)?,
                    kind: row.get(3)?,
                    start_line: row.get::<_, i64>(4)? as usize,
                    start_column: row.get::<_, i64>(5)? as usize,
                    end_line: row.get::<_, i64>(6)? as usize,
                    end_column: row.get::<_, i64>(7)? as usize,
                })
            })
            .unwrap();
        rows.map(|r| row_to_symbol_location(r.unwrap())).collect()
    }

    fn is_dirty(&self) -> bool {
        self.dirty
    }
}

#[test]
fn test_db_open_and_schema() {
    let _db = SymbolIndexDatabase::open_in_memory().unwrap();
}

#[test]
fn test_update_file_symbols() {
    let mut db = SymbolIndexDatabase::open_in_memory().unwrap();

    let symbols = vec![SymbolLocation {
        path: None,
        name: "my_func".to_string(),
        start_line: 5,
        start_column: 0,
        end_line: 5,
        end_column: 7,
        symbol_type: SymbolType::Definition,
        kind: Some("function".to_string()),
    }];

    let _ = db.update_file_symbols("src/main.rs", 123456, 1024, &symbols);
    assert!(db.is_dirty());
}

#[test]
fn test_get_symbols_by_name() {
    let mut db = SymbolIndexDatabase::open_in_memory().unwrap();

    let symbols = vec![
        SymbolLocation {
            path: None,
            name: "foo".to_string(),
            start_line: 1,
            start_column: 0,
            end_line: 1,
            end_column: 3,
            symbol_type: SymbolType::Definition,
            kind: Some("function".to_string()),
        },
        SymbolLocation {
            path: None,
            name: "foo".to_string(),
            start_line: 10,
            start_column: 4,
            end_line: 10,
            end_column: 7,
            symbol_type: SymbolType::Reference,
            kind: None,
        },
    ];

    let _ = db.update_file_symbols("src/lib.rs", 999, 500, &symbols);

    let all = db.get_symbols_by_name("foo", None, None);
    assert_eq!(all.len(), 2);

    let defs = db.get_symbols_by_name("foo", Some(SymbolType::Definition), None);
    assert_eq!(defs.len(), 1);
    assert_eq!(defs[0].start_line, 1);

    let refs = db.get_symbols_by_name("foo", Some(SymbolType::Reference), None);
    assert_eq!(refs.len(), 1);
    assert_eq!(refs[0].start_line, 10);

    let limited = db.get_symbols_by_name("foo", None, Some(1));
    assert_eq!(limited.len(), 1);
}

#[test]
fn test_batch_update() {
    let mut db = SymbolIndexDatabase::open_in_memory().unwrap();

    let entries = vec![
        (
            "src/a.rs".to_string(),
            100u64,
            50u64,
            vec![SymbolLocation {
                path: None,
                name: "alpha".to_string(),
                start_line: 1,
                start_column: 0,
                end_line: 1,
                end_column: 5,
                symbol_type: SymbolType::Definition,
                kind: None,
            }],
        ),
        (
            "src/b.rs".to_string(),
            200u64,
            60u64,
            vec![SymbolLocation {
                path: None,
                name: "beta".to_string(),
                start_line: 2,
                start_column: 0,
                end_line: 2,
                end_column: 4,
                symbol_type: SymbolType::Reference,
                kind: None,
            }],
        ),
    ];

    let _ = db.update_files_symbols_batch(&entries);

    let alpha = db.get_symbols_by_name("alpha", None, None);
    assert_eq!(alpha.len(), 1);
    assert_eq!(alpha[0].path.as_deref(), Some("src/a.rs"));
}

#[test]
fn test_upsert_replaces_existing() {
    let mut db = SymbolIndexDatabase::open_in_memory().unwrap();

    let symbols_v1 = vec![SymbolLocation {
        path: None,
        name: "old_name".to_string(),
        start_line: 1,
        start_column: 0,
        end_line: 1,
        end_column: 8,
        symbol_type: SymbolType::Definition,
        kind: None,
    }];

    let _ = db.update_file_symbols("src/lib.rs", 100, 50, &symbols_v1);

    let symbols_v2 = vec![SymbolLocation {
        path: None,
        name: "new_name".to_string(),
        start_line: 1,
        start_column: 0,
        end_line: 1,
        end_column: 8,
        symbol_type: SymbolType::Definition,
        kind: None,
    }];

    let _ = db.update_file_symbols("src/lib.rs", 200, 55, &symbols_v2);

    let results = db.get_symbols_by_name("old_name", None, None);
    assert!(results.is_empty());

    let results = db.get_symbols_by_name("new_name", None, None);
    assert_eq!(results.len(), 1);
}

#[test]
fn test_exact_name_match_no_partial() {
    let mut db = SymbolIndexDatabase::open_in_memory().unwrap();

    let symbols = vec![
        SymbolLocation {
            path: None,
            name: "foo".to_string(),
            start_line: 1,
            start_column: 0,
            end_line: 1,
            end_column: 3,
            symbol_type: SymbolType::Definition,
            kind: None,
        },
        SymbolLocation {
            path: None,
            name: "foobar".to_string(),
            start_line: 2,
            start_column: 0,
            end_line: 2,
            end_column: 6,
            symbol_type: SymbolType::Definition,
            kind: None,
        },
    ];

    let _ = db.update_file_symbols("src/lib.rs", 100, 50, &symbols);

    let foo = db.get_symbols_by_name("foo", None, None);
    assert_eq!(foo.len(), 1);

    let foobar = db.get_symbols_by_name("foobar", None, None);
    assert_eq!(foobar.len(), 1);
}

#[test]
fn test_db_backed_get_returns_path() {
    let mut db = SymbolIndexDatabase::open_in_memory().unwrap();
    let mut service = SymbolIndexService::new("/tmp/test".to_string());
    service.attach_database(0, None);

    for (path, mtime, size, line, kind) in [
        ("src/a.rs", 100, 50, 5, SymbolType::Definition),
        ("src/b.rs", 200, 60, 10, SymbolType::Reference),
    ] {
        let symbols = [make_symbol("sym_a", line, kind)];
        db.update_file_symbols(path, mtime, size, &symbols).unwrap();
        service.note_stored_files(service.stored_file_count.unwrap() + 1);
        service.index_file(path, mtime, size, &symbols);
    }

    let stored = db.get_symbols_by_name("sym_a", None, None);
    let results = service.get_symbols_with(Some(stored), "sym_a", None, None);
    assert_eq!(results.len(), 2);
    let paths: Vec<_> = results.iter().filter_map(|r| r.path.clone()).collect();
    assert!(paths.contains(&"src/a.rs".to_string()));
    assert!(paths.contains(&"src/b.rs".to_string()));
    assert_eq!(service.status().indexed_file_count, 2);
    assert_eq!(service.status().high_water_mtime, 200);
}

fn candidate(path: &str) -> IndexCandidate {
    IndexCandidate {
        absolute_path: format!("/w/{path}"),
        relative_path: path.to_string(),
        mtime: 1,
        size: 22,
    }
}

/// Walks over files given by their paths and contents.
fn walk(service: &mut SymbolIndexService, files: &[(&str, &str)]) {
    let mut candidates: Vec<IndexCandidate> = files
        .iter()
        .filter(|(path, _)| path.split('/').all(|name| walks_into(name, name == "target", name == "target")))
        .map(|(path, _)| candidate(path))
        .collect();
    let parsers = load_parsers_for_candidates(&candidates);
    candidates.retain(|c| has_language(c, &parsers));
    let mut walk = InitialWalk::begin(service, candidates.len());
    for c in &candidates {
        if InitialWalk::wants(service, c, None) {
            let content = files.iter().find(|(path, _)| *path == c.relative_path).unwrap().1;
            let symbols = extract_symbols_for_indexing(&c.absolute_path, content, &parsers).unwrap();
            if let Some(batch) = walk.add(c, symbols) {
                service.index_files_batch(&batch);
            }
        }
    }
    let rest = walk.rest();
    service.index_files_batch(&rest);
    InitialWalk::finish(service, &candidates);
}

#[test]
fn walks_index_supported_files_only() {
    let mut service = SymbolIndexService::new("/w".to_string());
    walk(
        &mut service,
        &[
            ("src/lib.rs", "fn indexed_symbol() {}\n"),
            ("target/ignored.rs", "fn ignored_symbol() {}\n"),
            (".hidden.rs", "fn hidden_symbol() {}\n"),
            ("README", "indexed_symbol"),
        ],
    );
    assert_eq!(service.get_definitions("indexed_symbol", None).len(), 1);
    assert!(service.get_definitions("ignored_symbol", None).is_empty());
    assert!(service.get_definitions("hidden_symbol", None).is_empty());
    assert!(service.status().initial_walk_complete);
    assert_eq!(service.status().workspace_file_count, 1);
}

#[test]
fn walks_drop_deleted_files() {
    let mut service = SymbolIndexService::new("/w".to_string());
    walk(&mut service, &[("src/lib.rs", "fn removed_symbol() {}\n")]);
    assert_eq!(service.get_definitions("removed_symbol", None).len(), 1);
    walk(&mut service, &[]);
    assert!(
        service.get_definitions("removed_symbol", None).is_empty(),
        "symbols of deleted files go"
    );
}

#[test]
fn written_files_are_indexed_again() {
    let mut service = SymbolIndexService::new("/w".to_string());
    let content = "fn refreshed_symbol() {}\n";
    let symbols = parse_symbols("/w/lib.rs", content).unwrap();
    let (path, mtime, size, symbols) =
        prepare_index_entry("lib.rs", 1, content.len() as u64, 1000, symbols).unwrap();
    service.index_file_safe(&path, mtime, size, &symbols);
    assert_eq!(service.get_definitions("refreshed_symbol", None).len(), 1);
    assert!(prepare_index_entry("lib.rs", 1, 1001, 1000, Some(vec![])).is_none());
    assert_eq!(parse_symbols("/w/notes.txt", content).unwrap(), None);
}

#[test]
fn switched_off_index_stays_empty() {
    let mut service = SymbolIndexService::new("/w".to_string()).disabled();
    service.index_file("a.rs", 1, 1, &[make_symbol("x", 1, SymbolType::Definition)]);
    service.index_file_safe("a.rs", 1, 1, &[make_symbol("x", 1, SymbolType::Definition)]);
    assert!(service.is_disabled());
    assert!(service.get_symbols("x", None, None).is_empty());
    assert!(service.status().initial_walk_complete);
    assert_eq!(service.database_base(), None);
    assert_eq!(service.prepare_walk(), None);
}

#[test]
fn writing_a_file_again_replaces_its_symbols() {
    let mut service = SymbolIndexService::new("/w".to_string());
    service.index_file("a.rs", 1, 1, &[make_symbol("old", 1, SymbolType::Definition)]);
    service.index_file("b.rs", 1, 1, &[make_symbol("other", 1, SymbolType::Definition)]);
    service.index_file("a.rs", 2, 1, &[make_symbol("new", 1, SymbolType::Definition)]);
    assert!(service.get_symbols("old", None, None).is_empty());
    assert_eq!(service.get_symbols("new", None, None)[0].path.as_deref(), Some("a.rs"));
    assert_eq!(service.get_symbols("other", None, None).len(), 1);
    assert_eq!(service.status().indexed_file_count, 2);
    service.remove_missing_files(&vec!["b.rs".to_string()]);
    assert!(service.get_symbols("new", None, None).is_empty());
    assert_eq!(service.status().indexed_file_count, 1);
}

#[test]
fn the_database_can_tell_what_is_known() {
    let mut service = SymbolIndexService::new("/w".to_string());
    let stored = Some(StoredFile { mtime: 5, size: 6, has_symbols: true });
    assert!(service.has_matching_metadata("a.rs", 5, 6, stored));
    assert!(!service.has_matching_metadata("a.rs", 5, 7, stored));
    assert!(service.has_symbols_with_metadata("a.rs", 5, 6, stored));
    assert!(!service.index_file_safe_with("a.rs", 5, 6, &[], stored));
    assert_eq!(service.files.len(), 0);
    assert!(service.index_file_safe_with("a.rs", 5, 7, &[], stored));
    assert_eq!(service.files.len(), 1);
    service.note_stored_files(3);
    assert_eq!(service.status().indexed_file_count, 3);
    service.attach_database(42, Some(9));
    assert_eq!(service.prepare_walk().as_deref(), Some("/w"));
    assert_eq!(service.status().workspace_file_count, 42);
    assert!(service.wants_exclude("target\n"));
    assert!(!service.wants_exclude(INDEX_DIR));
    let moved = service.with_index_root("/tmp/x".to_string());
    assert_eq!(moved.database_base(), Some("/tmp/x"));
    assert!(!moved.wants_exclude(""));
}

#[test]
fn walks_hand_files_over_in_batches() {
    let mut service = SymbolIndexService::new("/w".to_string());
    let mut walk = InitialWalk::begin(&mut service, 100);
    let mut batches = Vec::new();
    for n in 0..100 {
        if let Some(b) = walk.add(&candidate(&format!("{n}.rs")), vec![]) {
            batches.push(b);
        }
    }
    batches.push(walk.rest());
    assert_eq!(batches.iter().map(|b| b.len()).collect::<Vec<_>>(), vec![64, 36]);
    let names: Vec<String> = batches.concat().into_iter().map(|e| e.0).collect();
    assert_eq!(names[99], "99.rs");
    assert!(is_candidate(true, 10, 10));
    assert!(!is_candidate(true, 11, 10));
    assert_eq!(sanitize_thread_name("/a b/ü1"), "-a-b--1");
    assert_eq!(sanitize_thread_name(&"x".repeat(60)).len(), 48);
}

#[test]
fn limits_bound_the_symbols_of_one_file() {
    let mut service = SymbolIndexService::new("/w".to_string());
    let many = [
        make_symbol("x", 1, SymbolType::Definition),
        make_symbol("x", 2, SymbolType::Definition),
        make_symbol("x", 3, SymbolType::Definition),
    ];
    service.index_file("a.rs", 1, 1, &many);
    assert_eq!(service.get_symbols("x", None, Some(2)).len(), 2);
    service.index_file("b.rs", 1, 1, &many);
    // A file after the limit was reached still gives its first symbol.
    assert_eq!(service.get_symbols("x", None, Some(2)).len(), 3);
    assert_eq!(service.get_symbols("x", None, Some(5)).len(), 5);
}
