//! Symbol index for fast symbol lookup across a codebase.

pub mod db;
pub mod extract;
pub mod laws;
pub mod service;
pub mod types;
pub mod walk;

pub use extract::extract_symbols_for_indexing;
pub use service::{SymbolIndexService, DB_FILENAME, INDEX_DIR};
pub use types::{FileIndexEntry, StoredFile, SymbolIndexStatus, SymbolLocation, SymbolType};
