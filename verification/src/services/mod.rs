//! Services around the agent: source-code queries, the symbol index and telemetry.

pub mod symbol_index;
pub mod telemetry;
pub mod telemetry_laws;
pub mod tree_sitter;
