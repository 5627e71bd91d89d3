//! What searches in files are for: whatever answers to a name is found, with all of its
//! text, under its full name and with its context.

use crate::services::tree_sitter::code;
use crate::services::tree_sitter::code::Reading;
use crate::services::tree_sitter::definitions;
use crate::services::tree_sitter::function_search;
use crate::services::tree_sitter::function_search::{Function, Outcome, Place};
use crate::services::tree_sitter::functions;
use crate::services::tree_sitter::functions::{Extent, Telling};
use crate::services::tree_sitter::parser;
use crate::services::tree_sitter::parser::{Failure, LanguageValue};
use crate::services::tree_sitter::symbol_context;
use crate::services::tree_sitter::symbol_context::Draft;
use crate::services::tree_sitter::syntax;
use crate::services::tree_sitter::syntax::{Grammar, Step, SyntaxNode};
use crate::text;
use vstd::prelude::*;

verus! {

// ---------------------------------------------------------------------------
// Extensions
// ---------------------------------------------------------------------------

proof fn lemma_no_mark(s: Seq<char>, c: char)
    requires
        !s.contains(c),
    ensures
        parser::after_last(s, c) == s,
    decreases s.len(),
{
    if s.len() > 0 {
        assert(s[s.len() - 1] == s.last());
        assert(s.contains(s.last()));
        let p = s.drop_last();
        assert(!p.contains(c)) by {
            if p.contains(c) {
                let k = choose|k: int| 0 <= k < p.len() && p[k] == c;
                assert(s[k] == c);
            }
        }
        lemma_no_mark(p, c);
        assert(s =~= p.push(s.last()));
    } else {
        assert(s =~= Seq::empty());
    }
}

/// What follows the last mark of a text is found.
pub proof fn law_last_part_is_found(head: Seq<char>, tail: Seq<char>, c: char)
    requires
        !tail.contains(c),
    ensures
        parser::after_last(tail, c) == tail,
        parser::after_last(head + seq![c] + tail, c) == tail,
    decreases tail.len(),
{
    lemma_no_mark(tail, c);
    let all = head + seq![c] + tail;
    if tail.len() == 0 {
        assert(all.last() == c);
        assert(tail =~= Seq::empty());
    } else {
        let p = tail.drop_last();
        assert(!p.contains(c)) by {
            if p.contains(c) {
                let k = choose|k: int| 0 <= k < p.len() && p[k] == c;
                assert(tail[k] == c);
            }
        }
        law_last_part_is_found(head, p, c);
        assert(tail[tail.len() - 1] == tail.last());
        assert(tail.contains(tail.last()));
        assert(all.drop_last() =~= head + seq![c] + p);
        assert(all.last() == tail.last());
        assert(tail =~= p.push(tail.last()));
    }
}

/// The extension of a path is what follows the dot of its file name, wherever the file is.
pub proof fn law_extension_follows_the_dot(dir: Seq<char>, stem: Seq<char>, ext: Seq<char>)
    requires
        stem.len() > 0,
        ext.len() > 0,
        !stem.contains('/'),
        !ext.contains('/'),
        !ext.contains('.'),
    ensures
        parser::extension(stem + seq!['.'] + ext) == ext,
        parser::extension(dir + seq!['/'] + (stem + seq!['.'] + ext)) == ext,
{
    let name = stem + seq!['.'] + ext;
    let path = dir + seq!['/'] + name;
    assert(ext.contains(ext.last())) by {
        assert(ext[ext.len() - 1] == ext.last());
    }
    assert(!name.contains('/')) by {
        if name.contains('/') {
            let k = choose|k: int| 0 <= k < name.len() && name[k] == '/';
            if k < stem.len() {
                assert(stem[k] == '/');
            } else if k > stem.len() {
                assert(ext[k - stem.len() - 1] == '/');
            }
        }
    }
    assert(name.last() == ext.last());
    assert(path.last() == ext.last());
    law_last_part_is_found(dir, name, '/');
    law_last_part_is_found(stem, ext, '.');
    reveal_strlit("..");
    assert(name != ".."@) by {
        if name == ".."@ {
            assert(name.last() == ".."@[1]);
        }
    }
}

/// The languages of extensions, and none for any other.
pub proof fn law_languages_of_extensions(ext: Seq<char>)
    ensures
        ({
            let l = parser::language_for(ext);
            &&& l is Some ==> (l->0.grammar == Grammar::JavaScript <==> ext == "js"@ || ext
                == "jsx"@)
            &&& l is Some ==> (l->0.grammar == Grammar::TypeScript <==> ext == "ts"@)
            &&& l is Some ==> (l->0.grammar == Grammar::Tsx <==> ext == "tsx"@)
            &&& l is Some ==> (l->0.grammar == Grammar::Python <==> ext == "py"@)
            &&& l is Some ==> (l->0.grammar == Grammar::Rust <==> ext == "rs"@)
            &&& l is Some ==> (l->0.grammar == Grammar::Go <==> ext == "go"@)
            &&& l is Some ==> (l->0.grammar == Grammar::C <==> ext == "c"@ || ext == "h"@)
            &&& l is Some ==> (l->0.grammar == Grammar::Cpp <==> ext == "cpp"@ || ext == "hpp"@)
            &&& l is Some ==> (l->0.grammar == Grammar::CSharp <==> ext == "cs"@)
            &&& l is Some ==> (l->0.grammar == Grammar::Ruby <==> ext == "rb"@)
            &&& l is Some ==> (l->0.grammar == Grammar::Java <==> ext == "java"@)
            &&& l is Some ==> (l->0.grammar == Grammar::Php <==> ext == "php"@)
            &&& l is Some ==> (l->0.grammar == Grammar::Swift <==> ext == "swift"@)
            &&& l is None <==> !(ext == "js"@ || ext == "jsx"@ || ext == "ts"@ || ext == "tsx"@
                || ext == "py"@ || ext == "rs"@ || ext == "go"@ || ext == "c"@ || ext == "h"@ || ext
                == "cpp"@ || ext == "hpp"@ || ext == "cs"@ || ext == "rb"@ || ext == "java"@ || ext
                == "php"@ || ext == "swift"@)
        }),
{
    reveal_strlit("js");
    reveal_strlit("jsx");
    reveal_strlit("ts");
    reveal_strlit("tsx");
    reveal_strlit("py");
    reveal_strlit("rs");
    reveal_strlit("go");
    reveal_strlit("c");
    reveal_strlit("h");
    reveal_strlit("cpp");
    reveal_strlit("hpp");
    reveal_strlit("cs");
    reveal_strlit("rb");
    reveal_strlit("java");
    reveal_strlit("php");
    reveal_strlit("swift");
    assert("js"@[0] == 'j' && "ts"@[0] == 't' && "py"@[0] == 'p' && "rs"@[0] == 'r' && "rs"@[1]
        == 's' && "go"@[0] == 'g' && "cs"@[0] == 'c' && "rb"@[0] == 'r' && "rb"@[1] == 'b');
    assert("jsx"@[0] == 'j' && "tsx"@[0] == 't' && "cpp"@[0] == 'c' && "hpp"@[0] == 'h'
        && "php"@[0] == 'p');
    assert("c"@[0] == 'c' && "h"@[0] == 'h');
    assert("js"@.len() == 2 && "ts"@.len() == 2 && "py"@.len() == 2 && "rs"@.len() == 2
        && "go"@.len() == 2 && "cs"@.len() == 2 && "rb"@.len() == 2);
    assert("jsx"@.len() == 3 && "tsx"@.len() == 3 && "cpp"@.len() == 3 && "hpp"@.len() == 3
        && "php"@.len() == 3);
    assert("c"@.len() == 1 && "h"@.len() == 1);
    assert("java"@.len() == 4 && "swift"@.len() == 5);
}

// ---------------------------------------------------------------------------
// Ranges
// ---------------------------------------------------------------------------

/// A kind that wraps a definition.
pub open spec fn wraps(k: Seq<char>) -> bool {
    ||| k == "export_statement"@
    ||| k == "export_declaration"@
    ||| k == "ambient_declaration"@
    ||| k == "decorated_definition"@
    ||| k == "internal_module"@
}

/// A kind that belongs to what follows it.
pub open spec fn goes_before(k: Seq<char>) -> bool {
    k == "decorator"@ || k == "attribute"@ || text::has(k, "comment"@)
}

proof fn lemma_comment(k: Seq<char>)
    ensures
        functions::is_prefix(k) == goes_before(k),
{
    if k == "comment"@ {
        assert(text::matches_at(k, "comment"@, 0)) by {
            assert(k.subrange(0, k.len() as int) =~= k);
        }
    }
}

/// A definition by itself has its own range; one in a wrapper has the range of the wrapper;
/// one with a comment, a decorator or an attribute before it starts where that starts.
pub proof fn law_ranges_take_in_what_belongs(r: Reading, n: int, p: int)
    requires
        0 <= p < n,
    ensures
        ({
            let e = functions::extended(r, n);
            let own = r.nodes[n];
            let alone = !(own.parent is Some && 0 <= own.parent->0 < n && wraps(
                r.nodes[own.parent->0].kind,
            ));
            let first = !(own.previous is Some && 0 <= own.previous->0 < n && goes_before(
                r.nodes[own.previous->0].kind,
            ));
            &&& alone && first ==> e == (Extent {
                from: own.start_byte,
                to: own.end_byte,
                line: own.start_row,
            })
            &&& own.parent == Some(p) && wraps(r.nodes[p].kind) ==> e == functions::extended(r, p)
            &&& alone && own.previous == Some(p) && goes_before(r.nodes[p].kind) ==> e.to
                == own.end_byte && e.from == r.nodes[functions::preceded(r, p)].start_byte
            &&& alone && own.previous == Some(p) && goes_before(r.nodes[p].kind)
                && r.nodes[p].previous is None ==> e.from == r.nodes[p].start_byte && e.line
                == r.nodes[p].start_row
        }),
{
    let own = r.nodes[n];
    lemma_comment(r.nodes[p].kind);
    if let Some(q) = own.previous {
        lemma_comment(r.nodes[q].kind);
    }
    if let Some(q) = own.parent {
        assert(functions::is_wrapper(r.nodes[q].kind) == wraps(r.nodes[q].kind));
    }
    assert(functions::is_wrapper(r.nodes[p].kind) == wraps(r.nodes[p].kind));
}

// ---------------------------------------------------------------------------
// Names
// ---------------------------------------------------------------------------

/// A name answers only to one that it is or ends with.
pub proof fn law_answers_end_alike(full: Seq<char>, asked: Seq<char>)
    requires
        functions::answers(full, asked),
    ensures
        ({
            let f = functions::dotted(full);
            let a = functions::dotted(asked);
            &&& f.len() >= a.len()
            &&& f.skip(f.len() - a.len()) == a
            &&& f.len() > a.len() ==> f[f.len() - a.len() - 1] == '.'
        }),
{
    let f = functions::dotted(full);
    let a = functions::dotted(asked);
    reveal_strlit(".");
    assert("."@ =~= seq!['.']);
    if f == a {
        assert(f.skip(0) =~= a);
    } else {
        let t = "."@ + a;
        let at = f.len() - t.len();
        assert(f.subrange(at, f.len() as int) =~= t);
        assert(f.skip(f.len() - a.len()) =~= a) by {
            assert forall|i: int| 0 <= i < a.len() implies f.skip(f.len() - a.len())[i] == a[i] by {
                assert(f.subrange(at, f.len() as int)[i + 1] == t[i + 1]);
            }
        }
        assert(f.subrange(at, f.len() as int)[0] == t[0]);
    }
}

/// A definition that nothing stands around has its own name; the name of a definition around
/// it stands before its own, with a dot between.
pub proof fn law_names_are_qualified(
    r: Reading,
    n: int,
    p: int,
    seen: Seq<u32>,
    id: u32,
    outer: Seq<char>,
    name: Seq<char>,
)
    requires
        0 <= p < n,
    ensures
        r.nodes[n].parent is None ==> functions::qualified(r, n, seen, name) == name,
        r.nodes[n].parent == Some(p) && functions::own_match(r, p) is None
            ==> functions::qualified(r, n, seen, name) == functions::qualified(r, p, seen, name),
        r.nodes[n].parent == Some(p) && r.nodes[p].parent is None && functions::own_match(r, p)
            == Some(id) && !seen.contains(id) && functions::match_name(
            r,
            id,
            r.steps.len() as int,
        ) == Some(outer) ==> functions::qualified(r, n, seen, name) == outer + "."@ + name,
        r.nodes[n].parent == Some(p) && functions::own_match(r, p) == Some(id) && seen.contains(id)
            ==> functions::qualified(r, n, seen, name) == functions::qualified(r, p, seen, name),
{
    reveal_with_fuel(functions::qualified, 3);
}

// ---------------------------------------------------------------------------
// Functions
// ---------------------------------------------------------------------------

/// The step defines something that answers to one of the requested names.
pub open spec fn is_wanted(r: Reading, i: int, asked: Seq<Seq<char>>, j: int) -> bool {
    let x = functions::defined_nodes(r, i, Telling::Anywhere);
    x is Some && 0 <= j < asked.len() && functions::answers(
        functions::full_name(r, (x->0).1, r.node_text((x->0).0)),
        asked[j],
    )
}

/// Whatever answers to a requested name is found: a place has its range, and the name counts
/// as found.
pub proof fn law_wanted_functions_are_found(
    r: Reading,
    asked: Seq<Seq<char>>,
    k: int,
    i: int,
    j: int,
)
    requires
        0 <= i < k <= r.steps.len(),
        is_wanted(r, i, asked, j),
    ensures
        ({
            let s = function_search::search(r, asked, k);
            let d = (functions::defined_nodes(r, i, Telling::Anywhere)->0).1;
            let e = functions::extended(r, d);
            &&& exists|m: int|
                0 <= m < s.places.len() && (#[trigger] s.places[m]).from == e.from
                    && s.places[m].to == e.to
            &&& s.names.contains(asked[j])
        }),
    decreases k,
{
    let s = function_search::search(r, asked, k);
    let before = function_search::search(r, asked, k - 1);
    let (n, d) = functions::defined_nodes(r, i, Telling::Anywhere)->0;
    let e = functions::extended(r, d);
    if i < k - 1 {
        law_wanted_functions_are_found(r, asked, k - 1, i, j);
        let m = choose|m: int|
            0 <= m < before.places.len() && (#[trigger] before.places[m]).from == e.from
                && before.places[m].to == e.to;
        assert(s.places[m] == before.places[m]);
        if let Some((n2, d2)) = functions::defined_nodes(r, k - 1, Telling::Anywhere) {
            lemma_answered_keeps(
                before.names,
                function_search::place(r, n2, d2).full_name,
                asked,
                asked.len() as int,
                asked[j],
            );
        }
    } else {
        let p = function_search::place(r, n, d);
        assert(functions::answers(p.full_name, asked[j]));
        assert(function_search::answers_any(p.full_name, asked, asked.len() as int));
        lemma_answered_has(before.names, p.full_name, asked, asked.len() as int, j);
        if function_search::has_range(before.places, p.from, p.to, before.places.len() as int) {
            let m = choose|m: int|
                0 <= m < before.places.len() && (#[trigger] before.places[m]).from == p.from
                    && before.places[m].to == p.to;
            assert(s.places[m].from == e.from);
        } else {
            assert(s.places[before.places.len() as int] == p);
        }
    }
}

proof fn lemma_answered_keeps(
    have: Seq<Seq<char>>,
    full: Seq<char>,
    asked: Seq<Seq<char>>,
    k: int,
    t: Seq<char>,
)
    requires
        have.contains(t),
    ensures
        function_search::answered(have, full, asked, k).contains(t),
    decreases k,
{
    if k > 0 {
        lemma_answered_keeps(have, full, asked, k - 1, t);
        let few = function_search::answered(have, full, asked, k - 1);
        let all = function_search::answered(have, full, asked, k);
        let m = choose|m: int| 0 <= m < few.len() && few[m] == t;
        assert(all[m] == t);
    }
}

proof fn lemma_answered_has(
    have: Seq<Seq<char>>,
    full: Seq<char>,
    asked: Seq<Seq<char>>,
    k: int,
    j: int,
)
    requires
        0 <= j < k <= asked.len(),
        functions::answers(full, asked[j]),
    ensures
        function_search::answered(have, full, asked, k).contains(asked[j]),
    decreases k,
{
    let few = function_search::answered(have, full, asked, k - 1);
    let all = function_search::answered(have, full, asked, k);
    if j < k - 1 {
        lemma_answered_has(have, full, asked, k - 1, j);
        let m = choose|m: int| 0 <= m < few.len() && few[m] == asked[j];
        assert(all[m] == asked[j]);
    } else if !few.contains(asked[j]) {
        assert(all[few.len() as int] == asked[j]);
    }
}

/// Every place that is found is what some step defines, under its full name and with its
/// whole range.
pub proof fn law_found_functions_are_defined(r: Reading, asked: Seq<Seq<char>>, k: int, m: int)
    requires
        0 <= k <= r.steps.len(),
        0 <= m < function_search::search(r, asked, k).places.len(),
    ensures
        exists|i: int|
            0 <= i < k && #[trigger] is_defined_at(
                r,
                i,
                function_search::search(r, asked, k).places[m],
            ),
    decreases k,
{
    if k > 0 {
        let before = function_search::search(r, asked, k - 1);
        let s = function_search::search(r, asked, k);
        if m < before.places.len() {
            law_found_functions_are_defined(r, asked, k - 1, m);
            let i = choose|i: int|
                0 <= i < k - 1 && #[trigger] is_defined_at(r, i, before.places[m]);
            assert(is_defined_at(r, i, s.places[m]));
        } else {
            assert(is_defined_at(r, k - 1, s.places[m]));
        }
    }
}

/// The place is what a step defines.
pub open spec fn is_defined_at(r: Reading, i: int, p: Place) -> bool {
    let x = functions::defined_nodes(r, i, Telling::Anywhere);
    &&& x is Some
    &&& p.name_node == (x->0).0
    &&& p.node == (x->0).1
    &&& p.full_name == functions::full_name(r, p.node, r.node_text(p.name_node))
    &&& p.from == functions::extended(r, p.node).from
    &&& p.to == functions::extended(r, p.node).to
    &&& p.line == functions::extended(r, p.node).line
}

/// A function is handed out with its full name, all of its text, and each line of the text
/// with the anchor of its own line in the file.
pub proof fn law_functions_keep_their_text(
    r: Reading,
    l: LanguageValue,
    ext: Seq<char>,
    p: Place,
    anchors: Seq<Seq<char>>,
    i: int,
)
    requires
        code::slice(r.text, p.from, p.to) is Some,
        0 <= i < text::text_lines(code::slice(r.text, p.from, p.to)->0).len(),
    ensures
        ({
            let f = function_search::function_at(r, l, ext, p, anchors);
            &&& f.full_name == p.full_name
            &&& Some(f.text) == code::slice(r.text, p.from, p.to)
            &&& f.lines.len() == text::text_lines(f.text).len()
            &&& f.lines[i].0 == text::text_lines(f.text)[i]
            &&& 0 <= p.line + i < anchors.len() ==> f.lines[i].1 == anchors[p.line + i]
            &&& p.name_node == p.node ==> f.context.len() == 0
        }),
{
}

/// A function is shown under its file and its name, with its hash, all of its lines and its
/// context.
pub proof fn law_functions_are_shown(
    rel_path: Seq<char>,
    f: Function,
    hash: Seq<char>,
    lines: Seq<Seq<char>>,
)
    ensures
        ({
            let s = function_search::shown_function(rel_path, f, hash, lines);
            let head = rel_path + "::"@ + f.full_name + "\n[Function Hash: "@ + hash;
            let tail = text::joined(lines, "\n"@) + f.context;
            &&& s.len() >= head.len() + tail.len()
            &&& s.take(head.len() as int) == head
            &&& s.skip(s.len() - tail.len()) == tail
        }),
{
    let s = function_search::shown_function(rel_path, f, hash, lines);
    let head = rel_path + "::"@ + f.full_name + "\n[Function Hash: "@ + hash;
    let tail = text::joined(lines, "\n"@) + f.context;
    assert(s.take(head.len() as int) =~= head);
    assert(s.skip(s.len() - tail.len()) =~= tail);
}

// ---------------------------------------------------------------------------
// Symbols
// ---------------------------------------------------------------------------

/// A type that is found serves one that is asked for: it is the same, or both are callable,
/// or none is asked for.
pub open spec fn serves(found: Seq<char>, asked: Option<Seq<char>>) -> bool {
    asked is Some ==> found == asked->0 || ((found == "function"@ || found == "method"@) && (
    asked->0 == "function"@ || asked->0 == "method"@))
}

/// The step defines a symbol of a kind.
pub open spec fn is_symbol_at(r: Reading, i: int, symbol: Seq<char>, kind: Option<Seq<char>>) -> bool {
    let by = functions::defined_by(r.steps[i].captures, Telling::Front);
    let v = r.steps[i].captures;
    &&& by is Some
    &&& functions::answers(
        functions::full_name(r, v[(by->0).1].1, r.node_text(v[(by->0).0].1)),
        symbol,
    )
    &&& serves(parser::after_last(v[(by->0).1].0, '.'), kind)
}

/// The range of a symbol is found where some step defines it, and is that of the first that
/// does, with the symbol's own name.
pub proof fn law_symbols_are_found(
    r: Reading,
    symbol: Seq<char>,
    kind: Option<Seq<char>>,
    i: int,
)
    requires
        0 <= i < r.steps.len(),
        is_symbol_at(r, i, symbol, kind),
        forall|k: int| 0 <= k < i ==> !#[trigger] is_symbol_at(r, k, symbol, kind),
    ensures
        ({
            let by = functions::defined_by(r.steps[i].captures, Telling::Front)->0;
            let v = r.steps[i].captures;
            functions::symbol_range(r, symbol, kind) == Some(
                (functions::extended(r, v[by.1].1), r.node_text(v[by.0].1)),
            )
        }),
{
    lemma_first_symbol(r, symbol, kind, i, 0);
}

proof fn lemma_first_symbol(
    r: Reading,
    symbol: Seq<char>,
    kind: Option<Seq<char>>,
    i: int,
    from: int,
)
    requires
        0 <= from <= i < r.steps.len(),
        is_symbol_at(r, i, symbol, kind),
        forall|k: int| 0 <= k < i ==> !#[trigger] is_symbol_at(r, k, symbol, kind),
    ensures
        functions::first_defining(r, symbol, kind, from) == Some(i),
    decreases i - from,
{
    assert(functions::defines(r, from, symbol, kind) == is_symbol_at(r, from, symbol, kind));
    if from < i {
        assert(!is_symbol_at(r, from, symbol, kind));
        lemma_first_symbol(r, symbol, kind, i, from + 1);
    }
}

/// No range is found for what no step defines.
pub proof fn law_missing_symbols_are_not_found(
    r: Reading,
    symbol: Seq<char>,
    kind: Option<Seq<char>>,
    from: int,
)
    requires
        0 <= from <= r.steps.len(),
        forall|k: int| 0 <= k < r.steps.len() ==> !#[trigger] is_symbol_at(r, k, symbol, kind),
    ensures
        functions::first_defining(r, symbol, kind, from) is None,
        from == 0 ==> functions::symbol_range(r, symbol, kind) is None,
    decreases r.steps.len() - from,
{
    if from < r.steps.len() {
        assert(functions::defines(r, from, symbol, kind) == is_symbol_at(r, from, symbol, kind));
        assert(!is_symbol_at(r, from, symbol, kind));
        law_missing_symbols_are_not_found(r, symbol, kind, from + 1);
    }
}

// ---------------------------------------------------------------------------
// Contexts
// ---------------------------------------------------------------------------

/// The number of captures under a name among the first `n`.
pub open spec fn named_before(v: Seq<(Seq<char>, Seq<char>)>, name: Seq<char>, n: int) -> int
    decreases n,
{
    if n <= 0 {
        0
    } else {
        named_before(v, name, n - 1) + (if v[n - 1].0 == name {
            1int
        } else {
            0
        })
    }
}

proof fn lemma_named_before(v: Seq<(Seq<char>, Seq<char>)>, name: Seq<char>, n: int)
    requires
        0 <= n < v.len(),
    ensures
        named_before(v.drop_last(), name, n) == named_before(v, name, n),
        0 <= named_before(v, name, n),
    decreases n,
{
    if n > 0 {
        lemma_named_before(v, name, n - 1);
    }
}

/// The texts under a name are those of the captures with that name, in order.
pub proof fn law_texts_are_told_by_name(v: Seq<(Seq<char>, Seq<char>)>, name: Seq<char>)
    ensures
        symbol_context::captured_as(v, name).len() == named_before(v, name, v.len() as int),
        forall|k: int|
            0 <= k < v.len() && (#[trigger] v[k]).0 == name ==> 0 <= named_before(v, name, k)
                < symbol_context::captured_as(v, name).len() && symbol_context::captured_as(
                v,
                name,
            )[named_before(v, name, k)] == v[k].1,
    decreases v.len(),
{
    if v.len() > 0 {
        let p = v.drop_last();
        law_texts_are_told_by_name(p, name);
        lemma_named_before(v, name, p.len() as int);
        let few = symbol_context::captured_as(p, name);
        let all = symbol_context::captured_as(v, name);
        assert forall|k: int| 0 <= k < v.len() && (#[trigger] v[k]).0 == name implies 0
            <= named_before(v, name, k) < all.len() && all[named_before(v, name, k)] == v[k].1 by {
            lemma_named_before(v, name, k);
            if k < p.len() {
                assert(p[k] == v[k]);
                assert(all[named_before(v, name, k)] == few[named_before(p, name, k)]);
            }
        }
    }
}

/// The lines of texts.
pub open spec fn line_count(v: Seq<Seq<char>>) -> int
    decreases v.len(),
{
    if v.len() == 0 {
        0
    } else {
        line_count(v.drop_last()) + text::text_lines(v.last()).len()
    }
}

proof fn lemma_line_count(v: Seq<Seq<char>>)
    ensures
        0 <= line_count(v),
    decreases v.len(),
{
    if v.len() > 0 {
        lemma_line_count(v.drop_last());
    }
}

proof fn lemma_all_fit(d: Draft, v: Seq<Seq<char>>, limit: int)
    requires
        d.lines + line_count(v) <= limit,
    ensures
        d.texts(v, limit).parts == d.parts + v,
        d.texts(v, limit).lines == d.lines + line_count(v),
    decreases v.len(),
{
    if v.len() == 0 {
        assert(d.parts + v =~= d.parts);
    } else {
        lemma_all_fit(d, v.drop_last(), limit);
        assert(d.parts + v =~= (d.parts + v.drop_last()).push(v.last()));
    }
}

/// A section whose texts fit stands whole under its heading, after an empty line where
/// something stands before it; one without texts adds nothing.
pub proof fn law_sections_are_whole(
    d: Draft,
    heading: Seq<char>,
    v: Seq<Seq<char>>,
    limit: int,
)
    requires
        d.lines + line_count(v) <= limit,
    ensures
        ({
            let s = d.section(heading, v, limit);
            &&& v.len() == 0 ==> s == d
            &&& v.len() > 0 && d.parts.len() == 0 ==> s.parts == seq![heading] + v
            &&& v.len() > 0 && d.parts.len() > 0 ==> s.parts == d.parts + seq![
                Seq::empty(),
                heading,
            ] + v
            &&& v.len() > 0 ==> s.lines == d.lines + line_count(v)
        }),
{
    if v.len() > 0 {
        let apart = if d.parts.len() > 0 {
            d.parts.push(Seq::empty())
        } else {
            d.parts
        };
        lemma_all_fit(Draft { parts: apart.push(heading), ..d }, v, limit);
        let s = d.section(heading, v, limit);
        if d.parts.len() == 0 {
            assert(s.parts =~= seq![heading] + v);
        } else {
            assert(s.parts =~= d.parts + seq![Seq::empty(), heading] + v);
        }
    }
}

/// A context that fits shows the imports, the class, the properties and the methods, each
/// under its heading and in this order.
pub proof fn law_contexts_show_everything(v: Seq<(Seq<char>, Seq<char>)>, limit: int)
    requires
        symbol_context::captured_as(v, "import"@).len() > 0,
        symbol_context::captured_as(v, "class"@).len() > 0,
        symbol_context::captured_as(v, "property"@).len() > 0,
        symbol_context::captured_as(v, "method"@).len() > 0,
        line_count(symbol_context::captured_as(v, "import"@)) + line_count(
            symbol_context::captured_as(v, "class"@),
        ) + line_count(symbol_context::captured_as(v, "property"@)) + line_count(
            symbol_context::captured_as(v, "method"@),
        ) <= limit,
    ensures
        symbol_context::draft(v, limit).parts == seq!["### Imports"@] + symbol_context::captured_as(
            v,
            "import"@,
        ) + seq![Seq::empty(), "### Class"@] + symbol_context::captured_as(v, "class"@) + seq![
            Seq::empty(),
            "### Properties"@,
        ] + symbol_context::captured_as(v, "property"@) + seq![Seq::empty(), "### Methods"@]
            + symbol_context::captured_as(v, "method"@),
{
    let imports = symbol_context::captured_as(v, "import"@);
    let classes = symbol_context::captured_as(v, "class"@);
    let properties = symbol_context::captured_as(v, "property"@);
    let methods = symbol_context::captured_as(v, "method"@);
    lemma_line_count(imports);
    lemma_line_count(classes);
    lemma_line_count(properties);
    lemma_line_count(methods);
    let a = Draft { parts: Seq::empty(), lines: 0 };
    law_sections_are_whole(a, "### Imports"@, imports, limit);
    let b = a.section("### Imports"@, imports, limit);
    law_sections_are_whole(b, "### Class"@, classes, limit);
    let c = b.section("### Class"@, classes, limit);
    law_sections_are_whole(c, "### Properties"@, properties, limit);
    let d = c.section("### Properties"@, properties, limit);
    law_sections_are_whole(d, "### Methods"@, methods, limit);
}

// ---------------------------------------------------------------------------
// Files
// ---------------------------------------------------------------------------

/// What is read of a file is its text with its tree and the captures of the query of its
/// language on all of it.
pub proof fn law_readings_are_of_the_file(l: LanguageValue, t: Seq<char>)
    ensures
        ({
            let x = definitions::read(l, t);
            let tree = syntax::parsed(l.grammar, t);
            let steps = syntax::captured(l.grammar, l.query, t, 0);
            &&& tree is Err ==> x is Err
            &&& x is Ok && x->Ok_0 is Some ==> (x->Ok_0->0).text == t && tree is Ok
                && tree->Ok_0 == Some((x->Ok_0->0).nodes) && steps == Some((x->Ok_0->0).steps)
                && (x->Ok_0->0).sound()
            &&& tree is Ok && tree->Ok_0 is Some && steps is Some && (Reading {
                text: t,
                nodes: tree->Ok_0->0,
                steps: steps->0,
            }).sound() ==> x is Ok && x->Ok_0 is Some
        }),
{
}

/// Questions about a file are answered from what is read of it: its definitions, the range
/// of a symbol, and the functions that are asked for. A file without a language has none,
/// and what is wrong with a grammar is told.
pub proof fn law_questions_are_answered_from_the_file(
    path: Seq<char>,
    rel_path: Seq<char>,
    t: Seq<char>,
    parsers: Seq<(Seq<char>, LanguageValue)>,
    graph: bool,
    symbol: Seq<char>,
    kind: Option<Seq<char>>,
    asked: Seq<Seq<char>>,
    anchors: Seq<Seq<char>>,
)
    ensures
        ({
            let ext = text::lowercased(parser::extension(path));
            let l = parser::under(parsers, ext);
            let x = definitions::read(l->0, t);
            let r = x->Ok_0->0;
            let defined = definitions::parse_outcome(path, t, parsers, graph);
            let range = functions::range_outcome(path, symbol, kind, t, parsers);
            let found = function_search::functions_outcome(
                path,
                rel_path,
                asked,
                t,
                parsers,
                anchors,
            );
            &&& l is None ==> defined is Ok && defined->Ok_0 is None && range is Ok
                && range->Ok_0 is None
            &&& l is None ==> found is Ok && found->Ok_0 is Some && found->Ok_0->0
                == Outcome::Answer("Unsupported file type: "@ + rel_path, Seq::empty())
            &&& l is Some && x is Err ==> defined is Err && range is Err && found is Err
            &&& l is Some && x is Ok && x->Ok_0 is Some ==> {
                let ds = definitions::definitions(r, graph);
                let fs = function_search::functions_of(r, l->0, ext, asked, anchors);
                &&& defined is Ok
                &&& ds.len() > 0 ==> defined->Ok_0 == Some(ds)
                &&& ds.len() == 0 ==> defined->Ok_0 is None
                &&& range is Ok && range->Ok_0 == functions::symbol_range(r, symbol, kind)
                &&& found is Ok && found->Ok_0 is Some
                &&& fs.len() > 0 ==> found->Ok_0->0 == Outcome::Found(
                    fs,
                    function_search::found_in(r, asked).names,
                )
                &&& fs.len() == 0 ==> found->Ok_0->0 is Answer
            }
        }),
{
}

/// The functions that are handed out are those that were found, in order.
pub proof fn law_every_place_is_handed_out(
    r: Reading,
    l: LanguageValue,
    ext: Seq<char>,
    asked: Seq<Seq<char>>,
    anchors: Seq<Seq<char>>,
    m: int,
)
    requires
        0 <= m < function_search::found_in(r, asked).places.len(),
    ensures
        function_search::functions_of(r, l, ext, asked, anchors).len()
            == function_search::found_in(r, asked).places.len(),
        function_search::functions_of(r, l, ext, asked, anchors)[m].full_name
            == function_search::found_in(r, asked).places[m].full_name,
        function_search::found_in(r, asked) == function_search::search(
            r,
            asked,
            r.steps.len() as int,
        ),
{
}

// ---------------------------------------------------------------------------
// Matches
// ---------------------------------------------------------------------------

/// What a match defines is named by the first capture of a definition's name, and its whole
/// is the first capture of a definition, or else the first capture of anything but a name.
pub proof fn law_matches_define(v: Seq<(Seq<char>, int)>, n: int, d: int, front: bool)
    requires
        0 <= n < v.len(),
        0 <= d < v.len(),
        is_name(v[n].0, front),
        forall|i: int| 0 <= i < n ==> !is_name((#[trigger] v[i]).0, front),
        text::begins(v[d].0, "definition."@),
        forall|i: int| 0 <= i < d ==> !text::begins((#[trigger] v[i]).0, "definition."@),
    ensures
        functions::defined_by(
            v,
            if front {
                Telling::Front
            } else {
                Telling::Anywhere
            },
        ) == Some((n, d)),
{
    let t = if front {
        Telling::Front
    } else {
        Telling::Anywhere
    };
    lemma_first_name(v, t, front, n, 0);
    lemma_first_definition(v, d, 0);
}

/// A capture of the name of a definition: told by its front, or anywhere in it.
pub open spec fn is_name(name: Seq<char>, front: bool) -> bool {
    if front {
        text::begins(name, "name.definition"@)
    } else {
        text::has(name, "name.definition"@)
    }
}

proof fn lemma_first_name(v: Seq<(Seq<char>, int)>, t: Telling, front: bool, n: int, from: int)
    requires
        t == (if front {
            Telling::Front
        } else {
            Telling::Anywhere
        }),
        0 <= from <= n < v.len(),
        is_name(v[n].0, front),
        forall|i: int| 0 <= i < n ==> !is_name((#[trigger] v[i]).0, front),
    ensures
        functions::first_name(v, t, from) == Some(n),
    decreases n - from,
{
    if from < n {
        assert(!is_name(v[from].0, front));
        lemma_first_name(v, t, front, n, from + 1);
    }
}

proof fn lemma_first_definition(v: Seq<(Seq<char>, int)>, d: int, from: int)
    requires
        0 <= from <= d < v.len(),
        text::begins(v[d].0, "definition."@),
        forall|i: int| 0 <= i < d ==> !text::begins((#[trigger] v[i]).0, "definition."@),
    ensures
        functions::first_definition(v, from) == Some(d),
    decreases d - from,
{
    if from < d {
        assert(!text::begins(v[from].0, "definition."@));
        lemma_first_definition(v, d, from + 1);
    }
}

/// A node belongs to the match of the last capture that names it or holds its definition;
/// a match is named by the first capture of a name in it.
pub proof fn law_nodes_belong_to_matches(r: Reading, n: int, k: int, i: int)
    requires
        0 <= i < k <= r.steps.len(),
    ensures
        (text::begins(r.name(i), "name."@) || text::begins(r.name(i), "definition."@)) && r.node(i)
            == n && (forall|j: int|
            i < j < k ==> !((text::begins(#[trigger] r.name(j), "name."@) || text::begins(
                r.name(j),
                "definition."@,
            )) && r.node(j) == n)) ==> functions::match_of(r, n, k) == Some(r.steps[i].match_id),
        text::begins(r.name(i), "name."@) && (forall|j: int|
            0 <= j < i ==> !(text::begins(#[trigger] r.name(j), "name."@) && r.steps[j].match_id
                == r.steps[i].match_id)) ==> functions::match_name(r, r.steps[i].match_id, k)
            == Some(r.node_text(r.node(i))),
    decreases k,
{
    if i < k - 1 {
        assert(r.name(k - 1) == r.name(k - 1));
        law_nodes_belong_to_matches(r, n, k - 1, i);
    } else {
        let id = r.steps[i].match_id;
        if forall|j: int|
            0 <= j < i ==> !(text::begins(#[trigger] r.name(j), "name."@) && r.steps[j].match_id
                == id) {
            lemma_unnamed(r, id, i);
        }
    }
}

proof fn lemma_unnamed(r: Reading, id: u32, k: int)
    requires
        forall|j: int|
            0 <= j < k ==> !(text::begins(#[trigger] r.name(j), "name."@) && r.steps[j].match_id
                == id),
    ensures
        functions::match_name(r, id, k) is None,
    decreases k,
{
    if k > 0 {
        lemma_unnamed(r, id, k - 1);
        assert(!(text::begins(r.name(k - 1), "name."@) && r.steps[k - 1].match_id == id));
    }
}

/// The captures that a context is made of are those of the query on the node, each with its
/// name and the text of its node; a language without a query has no context.
pub proof fn law_contexts_are_of_the_node(
    g: Grammar,
    ext: Seq<char>,
    t: Seq<char>,
    nodes: Seq<SyntaxNode>,
    node: int,
    limit: int,
    steps: Seq<Step>,
    q: Seq<char>,
    i: int,
)
    requires
        symbol_context::context_query(ext) == Some(q),
        syntax::query_failure(g, q) is None,
        syntax::captured(g, q, t, node) == Some(steps),
        symbol_context::steps_fit(t, nodes, steps),
        0 <= i < steps.len(),
    ensures
        ({
            let v = symbol_context::captured_texts(t, nodes, steps);
            let c = steps[i].captures[steps[i].index];
            &&& symbol_context::resolved(g, ext, t, nodes, node, limit) == Ok::<
                Seq<char>,
                Failure,
            >(text::joined(symbol_context::draft(v, limit).parts, "\n"@))
            &&& v.len() == steps.len()
            &&& v[i].0 == c.0
            &&& Some(v[i].1) == code::slice(t, nodes[c.1].start_byte, nodes[c.1].end_byte)
        }),
{
    assert(symbol_context::steps_fit(t, nodes, steps));
    let s = steps[i];
}

// ---------------------------------------------------------------------------
// Lines and paths
// ---------------------------------------------------------------------------

/// Each line of a text is shown with the anchor of the line of the file that it stands on.
pub proof fn law_lines_have_their_own_anchors(
    t: Seq<char>,
    line: int,
    anchors: Seq<Seq<char>>,
    i: int,
)
    requires
        0 <= i < text::text_lines(t).len(),
        0 <= line,
    ensures
        function_search::anchored(t, line, anchors).len() == text::text_lines(t).len(),
        function_search::anchored(t, line, anchors)[i].0 == text::text_lines(t)[i],
        line + i < anchors.len() ==> function_search::anchored(t, line, anchors)[i].1
            == anchors[line + i],
        line + i >= anchors.len() ==> function_search::anchored(t, line, anchors)[i].1.len() == 0,
{
}

/// A context that was found is shown under its heading; there is none of a node that is
/// nothing but its name, nor where none was found.
pub proof fn law_contexts_stand_under_a_heading(t: Seq<char>, f: Failure, name: int, node: int)
    ensures
        t.len() > 0 && name != node ==> function_search::shown_context(Ok(t), name, node)
            == "\n--- Symbol Context ---\n"@ + t,
        function_search::shown_context(Ok(t), node, node).len() == 0,
        function_search::shown_context(Ok(Seq::empty()), name, node).len() == 0,
        function_search::shown_context(Err(f), name, node).len() == 0,
{
}

/// Slashes and single dots at the end of a path do not count.
pub proof fn law_path_ends_do_not_count(p: Seq<char>)
    ensures
        parser::path_end(p.push('/')) == parser::path_end(p),
        parser::path_end(p.push('/').push('.')) == parser::path_end(p),
        parser::file_name(p.push('/')) == parser::file_name(p),
{
    assert(p.push('/').drop_last() =~= p);
    let q = p.push('/').push('.');
    assert(q.take(q.len() - 2) =~= p);
}

} // verus!
