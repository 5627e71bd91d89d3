//! Source-code queries.

use sned::services::tree_sitter::code::Source;
use sned::services::tree_sitter::definitions::read_code;
use sned::services::tree_sitter::functions::are_types_compatible;
use sned::services::tree_sitter::parser::{get_extension, load_language_parser};
use sned::services::tree_sitter::parser_cache::ParserCache;
use sned::services::tree_sitter::symbol_context::{
    build_context_from_captures, resolve_symbol_context, SymbolContextOptions,
};
use sned::services::tree_sitter::{
    get_file_skeleton, get_functions, get_symbol_range, has_tree, load_required_language_parsers,
    parse_file, show_functions, FunctionSearch, LanguageParserError, ParseOptions, ShownFunction,
};

#[test]
fn mod_test_get_extension() {
    assert_eq!(get_extension("file.rs"), "rs");
    assert_eq!(get_extension("file.JS"), "js");
}

#[test]
fn parser_test_get_extension() {
    assert_eq!(get_extension("file.rs"), "rs");
    assert_eq!(get_extension("file.JS"), "js");
    assert_eq!(get_extension("/path/to/file.py"), "py");
    assert_eq!(get_extension("no_extension"), "");
}

#[test]
fn test_load_rust_parser() {
    let result = load_language_parser("rs");
    assert!(
        result.is_ok(),
        "Failed to load Rust parser: {:?}",
        result.err()
    );
}

#[test]
fn test_load_javascript_parser() {
    let result = load_language_parser("js");
    assert!(
        result.is_ok(),
        "Failed to load JS parser: {:?}",
        result.err()
    );
}

#[test]
fn test_load_python_parser() {
    let result = load_language_parser("py");
    assert!(
        result.is_ok(),
        "Failed to load Python parser: {:?}",
        result.err()
    );
}

#[test]
fn test_unsupported_extension() {
    let result = load_language_parser("xyz");
    assert!(matches!(
        result,
        Err(LanguageParserError::UnsupportedExtension(_))
    ));
}

#[test]
fn test_kotlin_deferred() {
    // Kotlin is explicitly deferred due to tree-sitter version conflict
    let result = load_language_parser("kt");
    assert!(matches!(
        result,
        Err(LanguageParserError::UnsupportedExtension(_))
    ));
}

/// The context of a whole text.
fn resolve_symbol_context_for_test(code: &str, ext: &str) -> String {
    let entry = match load_language_parser(ext) {
        Ok(e) => e,
        Err(_) => return String::new(),
    };
    let read = match read_code(&entry, code) {
        Ok(Some(c)) => c,
        _ => return String::new(),
    };
    let options = SymbolContextOptions {
        node: 0,
        nodes: &read.nodes,
        source: &read.source,
        file_content: code,
        ext,
        max_context_lines: Some(30),
    };
    match resolve_symbol_context(&options, entry.grammar) {
        Ok(result) => result.context,
        Err(_) => String::new(),
    }
}

#[test]
fn test_resolve_symbol_context_python() {
    let code = r#"
from typing import List
import os

class MyClass:
def __init__(self):
    self.value = 42

def my_method(self):
    return self.value

def another_method(self):
    pass
"#;

    let result = resolve_symbol_context_for_test(code, "py");

    // Should have non-empty context with imports and class
    assert!(
        !result.is_empty(),
        "Context should not be empty for Python code"
    );
    assert!(result.contains("import"), "Should contain imports");
}

#[test]
fn test_resolve_symbol_context_returns_empty_for_unsupported_ext() {
    let result = resolve_symbol_context_for_test("some code", "xyz");
    assert!(
        result.is_empty(),
        "Unsupported ext should return empty context"
    );
}

const RUST: &str = "\
/// Says hello.
fn hello() {
    world();
}

fn world() {}

struct Foo {
    x: u8,
}

impl Foo {
    fn size(&self) -> usize {
        hello();
        1
    }
}
";

fn shown(text: &str) -> Vec<String> {
    text.lines().map(|l| format!("#{l}")).collect()
}

#[test]
fn definitions_stand_in_the_order_of_their_lines() {
    let parsers = load_required_language_parsers(&["a.rs"]).unwrap();
    let defs = parse_file("a.rs", RUST, &parsers, None).unwrap().unwrap();
    let lines: Vec<usize> = defs.iter().map(|d| d.line_index).collect();
    let mut sorted = lines.clone();
    sorted.sort();
    sorted.dedup();
    assert_eq!(lines, sorted);
    assert!(defs.iter().all(|d| d.text == RUST.lines().nth(d.line_index).unwrap()));
    assert!(defs.iter().any(|d| d.text == "fn hello() {"));
    assert!(defs.iter().all(|d| d.line_count.is_none() && d.calls.is_none()));
    assert!(parse_file("a.txt", RUST, &parsers, None).unwrap().is_none());
    assert!(parse_file("a.rs", "", &parsers, None).unwrap().is_none());
}

#[test]
fn call_graphs_name_local_calls() {
    let parsers = load_required_language_parsers(&["a.rs"]).unwrap();
    let options = ParseOptions { show_call_graph: true };
    let defs = parse_file("a.rs", RUST, &parsers, Some(&options)).unwrap().unwrap();
    let hello = defs.iter().find(|d| d.text == "fn hello() {").unwrap();
    assert_eq!(hello.calls, Some(vec!["world".to_string()]));
    assert!(hello.line_count.is_some());
    let size = defs.iter().find(|d| d.text.contains("fn size")).unwrap();
    assert_eq!(size.indentation, "    ");
    assert_eq!(size.calls, Some(vec!["hello".to_string()]));
}

#[test]
fn skeletons_show_definitions_between_rules() {
    let parsers = load_required_language_parsers(&["a.rs"]).unwrap();
    let text = "fn a() {}\nfn b() {}\n\nfn c() { a(); b(); }\n";
    let plain = get_file_skeleton("a.rs", text, &parsers, &shown(text), None).unwrap().unwrap();
    assert_eq!(
        plain,
        "|----\n│#fn a() {}\n│#fn b() {}\n|----\n│#fn c() { a(); b(); }\n|----\n"
    );
    let options = ParseOptions { show_call_graph: true };
    let full = get_file_skeleton("a.rs", text, &parsers, &shown(text), Some(&options)).unwrap().unwrap();
    assert!(full.contains("│    # Lines: 1\n"));
    assert!(full.contains("│    # Calls: [a, b]\n"));
}

#[test]
fn symbols_are_found_by_their_names() {
    let parsers = load_required_language_parsers(&["a.rs"]).unwrap();
    let range = get_symbol_range("a.rs", "hello", Some("method"), RUST, &parsers).unwrap().unwrap();
    assert_eq!(range.name_text, "hello");
    let text = &RUST[range.start_index..range.end_index];
    assert!(text.starts_with("/// Says hello.\n"));
    assert!(text.ends_with("}"));
    assert_eq!(range.start_line, 0);
    let size = get_symbol_range("a.rs", "Foo::size", None, RUST, &parsers).unwrap().unwrap();
    assert!(RUST[size.start_index..size.end_index].starts_with("fn size"));
    assert!(get_symbol_range("a.rs", "hello", Some("class"), RUST, &parsers).unwrap().is_none());
    assert!(get_symbol_range("a.rs", "nothing", None, RUST, &parsers).unwrap().is_none());
    assert!(are_types_compatible("function", Some("method")));
    assert!(!are_types_compatible("class", Some("method")));
}

#[test]
fn functions_are_shown_with_their_anchors() {
    let parsers = load_required_language_parsers(&["a.rs"]).unwrap();
    let anchors: Vec<String> = (0..RUST.lines().count()).map(|n| format!("A{n}")).collect();
    let names = vec!["world".to_string(), "Foo.size".to_string(), "absent".to_string()];
    let found = match get_functions("/w/a.rs", "a.rs", &names, RUST, &parsers, &anchors).unwrap() {
        Some(FunctionSearch::Found(f)) => f,
        other => panic!("expected functions, got {other:?}"),
    };
    assert_eq!(found.found_names, vec!["world".to_string(), "Foo.size".to_string()]);
    assert_eq!(found.functions.len(), 2);
    assert_eq!(found.functions[0].text, "fn world() {}");
    assert_eq!(
        found.functions[0].lines,
        vec![("fn world() {}".to_string(), "A5".to_string())]
    );
    assert_eq!(found.functions[1].full_name, "Foo.size");
    let shown: Vec<ShownFunction> = found
        .functions
        .iter()
        .map(|f| ShownFunction {
            hash: f.text.len().to_string(),
            lines: f.lines.iter().map(|(l, a)| format!("{a}|{l}")).collect(),
        })
        .collect();
    let result = show_functions("a.rs", found, &shown);
    assert!(result.formatted_content.starts_with(
        "a.rs::world\n[Function Hash: 13]\nAll Hash Anchors provided below are stable and can be used with edit_file directly.\nA5|fn world() {}\n\n---\n\na.rs::Foo.size\n"
    ));
}

#[test]
fn searches_without_functions_have_an_answer() {
    let parsers = load_required_language_parsers(&["a.rs"]).unwrap();
    let names = vec!["absent".to_string()];
    let answer = |path: &str| match get_functions(path, "rel", &names, RUST, &parsers, &vec![]) {
        Ok(Some(FunctionSearch::Answer(a))) => a.formatted_content,
        other => panic!("expected an answer, got {other:?}"),
    };
    assert_eq!(answer("a.txt"), "Unsupported file type: rel");
    assert_eq!(
        answer("a.rs"),
        "None of the requested functions (absent) were found in rel\n\nNote: The following functions were not found in any of the provided files: absent"
    );
}

#[test]
fn contexts_keep_to_their_limit() {
    let pair = |a: &str, b: &str| (a.to_string(), b.to_string());
    let captures = vec![
        pair("method", "def m(): pass"),
        pair("import", "import os"),
        pair("class", "class A:\n  x\n  y"),
        pair("ref", "os"),
    ];
    assert_eq!(
        build_context_from_captures(&captures, 30),
        "### Imports\nimport os\n\n### Class\nclass A:\n  x\n  y\n\n### Methods\ndef m(): pass"
    );
    assert_eq!(
        build_context_from_captures(&captures, 2),
        "### Imports\nimport os\n\n### Class\n\n### Methods\ndef m(): pass"
    );
}

#[test]
fn every_language_loads() {
    for ext in [
        "js", "jsx", "ts", "tsx", "py", "rs", "go", "c", "h", "cpp", "hpp", "cs", "rb", "java",
        "php", "swift",
    ] {
        match load_language_parser(ext) {
            Ok(_) => {}
            Err(LanguageParserError::QueryCreation(m)) => assert!(!m.is_empty()),
            Err(e) => panic!("{ext}: {}", e.message()),
        }
    }
}

#[test]
fn caches_make_no_difference() {
    let mut cache = ParserCache::new();
    for ext in ["rs", "py", "rs", "kt", "rs"] {
        let direct = load_language_parser(ext);
        let cached = cache.load_language_parser(ext);
        match (direct, cached) {
            (Ok(a), Ok(b)) => assert_eq!((a.grammar, a.query), (b.grammar, b.query)),
            (Err(a), Err(b)) => assert_eq!(a.message(), b.message()),
            other => panic!("{ext}: {other:?}"),
        }
    }
    assert_eq!(
        LanguageParserError::ParserCreation("x".to_string()).message(),
        "Failed to create parser: x"
    );
}

#[test]
fn unknown_extensions_stop_the_loading() {
    match load_required_language_parsers(&["a.rs", "b.kt", "c.zz"]) {
        Err(e) => assert_eq!(e.message(), "Unsupported language extension: kt"),
        Ok(_) => panic!("expected an error"),
    }
    assert_eq!(get_extension("/a.b/.bashrc"), "");
    assert_eq!(get_extension("a.tar.GZ/"), "gz");
    assert_eq!(get_extension(".."), "");
    assert_eq!(get_extension("x."), "");
}

#[test]
fn texts_are_cut_at_byte_positions() {
    let source = Source::new("aé🦀b");
    assert_eq!(source.cut(0, 8).as_deref(), Some("aé🦀b"));
    assert_eq!(source.cut(1, 3).as_deref(), Some("é"));
    assert_eq!(source.cut(3, 7).as_deref(), Some("🦀"));
    assert_eq!(source.cut(2, 3), None);
    assert_eq!(source.cut(0, 9), None);
    assert_eq!(source.cut(3, 1), None);
}

#[test]
fn caches_load_the_languages_of_files() {
    let mut cache = ParserCache::new();
    let parsers = cache.load_required_language_parsers(&["a.rs", "b.py", "c.RS"]).unwrap();
    assert_eq!(parsers.entries.len(), 2);
    assert!(parsers.get("rs").is_some() && parsers.get("py").is_some());
    assert!(has_tree("a.rs", "fn f() {}", &parsers));
    assert!(!has_tree("a.kt", "fun f() {}", &parsers));
    match cache.load_required_language_parsers(&["a.rs", "b.kt"]) {
        Err(e) => assert_eq!(e.message(), "Unsupported language extension: kt"),
        Ok(_) => panic!("expected an error"),
    }
}
