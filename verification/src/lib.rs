//! The provider core of a command-line coding agent: request building, stream
//! assembly, model tables, the symbol index and the source-code queries.

pub mod fields;
pub mod json;
pub mod providers;
pub mod services;
pub mod text;
pub mod text_laws;
