//! Source-code queries: what a file defines, where, and in which context.

pub mod code;
pub mod definition_laws;
pub mod definitions;
pub mod function_search;
pub mod functions;
pub mod parser;
pub mod parser_cache;
pub mod queries;
pub mod search_laws;
pub mod symbol_context;
pub mod syntax;

pub use definitions::{
    get_file_skeleton, has_tree, parse_file, ParseOptions, ParsedDefinition,
};
pub use function_search::{
    get_functions, show_functions, FoundFunction, FoundFunctions, FunctionSearch,
    GetFunctionsResult, ShownFunction,
};
pub use functions::{get_extended_range, get_symbol_range, ExtendedRange, SymbolRange};
pub use parser::{
    load_required_language_parsers, LanguageParserEntry, LanguageParserError, LanguageParserMap,
};
