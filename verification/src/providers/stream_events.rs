//! Chat completion events as MiniMax and OpenAI-compatible endpoints send them.

use crate::fields;
use crate::json;
use crate::json::{Json, Tree};
use crate::text;
use vstd::prelude::*;

verus! {

/// A fragment of a tool call.
#[derive(Debug)]
pub struct ToolDelta {
    pub index: usize,
    pub id: Option<String>,
    pub function: Option<FunctionDelta>,
}

/// A fragment of the function of a tool call.
#[derive(Debug)]
pub struct FunctionDelta {
    pub name: Option<String>,
    pub arguments: Option<String>,
}

/// The mathematical value of a fragment of a function.
pub struct FunctionPart {
    pub name: Option<Seq<char>>,
    pub arguments: Option<Seq<char>>,
}

/// The mathematical value of a fragment of a tool call.
pub struct ToolPart {
    pub index: nat,
    pub id: Option<Seq<char>>,
    pub function: Option<FunctionPart>,
}

impl View for FunctionDelta {
    type V = FunctionPart;

    open spec fn view(&self) -> FunctionPart {
        FunctionPart { name: text::opt(self.name), arguments: text::opt(self.arguments) }
    }
}

impl View for ToolDelta {
    type V = ToolPart;

    open spec fn view(&self) -> ToolPart {
        ToolPart {
            index: self.index as nat,
            id: text::opt(self.id),
            function: match self.function {
                Some(f) => Some(f@),
                None => None,
            },
        }
    }
}

/// The values of a list of fragments.
pub open spec fn tool_parts(v: Seq<ToolDelta>) -> Seq<ToolPart> {
    v.map_values(|d: ToolDelta| d@)
}

/// The members of a fragment of a function.
pub open spec fn function_members() -> Seq<Seq<char>> {
    seq!["name"@, "arguments"@]
}

/// The fragment of a function that a JSON object describes.
pub open spec fn function_part(t: Tree) -> Option<FunctionPart> {
    let t = fields::record(t, function_members(), 2);
    match (fields::maybe_text(t, "name"@), fields::maybe_text(t, "arguments"@)) {
        (Some(name), Some(arguments)) => if t is Obj {
            Some(FunctionPart { name, arguments })
        } else {
            None
        },
        _ => None,
    }
}

/// The members of a fragment of a tool call. With `typed`, it has a `type` too.
pub open spec fn tool_members(typed: bool) -> Seq<Seq<char>> {
    if typed {
        seq!["index"@, "id"@, "type"@, "function"@]
    } else {
        seq!["index"@, "id"@, "function"@]
    }
}

/// The fragment of a tool call that a JSON object describes. With `typed`, a
/// `type` that is there must be a text.
pub open spec fn tool_part(t: Tree, typed: bool) -> Option<ToolPart> {
    let t = fields::record(t, tool_members(typed), tool_members(typed).len() as int);
    if typed && fields::maybe_text(t, "type"@) is None {
        None
    } else {
        match (
            fields::number_of(t, "index"@, usize::MAX as int),
            fields::maybe_text(t, "id"@),
            fields::maybe_member(t, "function"@),
        ) {
            (Some(index), Some(id), None) => Some(
                ToolPart { index: index as nat, id, function: None },
            ),
            (Some(index), Some(id), Some(f)) => match function_part(f) {
                Some(p) => Some(ToolPart { index: index as nat, id, function: Some(p) }),
                None => None,
            },
            _ => None,
        }
    }
}

/// The fragments that a list of JSON objects describes, if each describes one.
pub open spec fn all_tool_parts(ts: Seq<Tree>, typed: bool) -> Option<Seq<ToolPart>>
    decreases ts.len(),
{
    if ts.len() == 0 {
        Some(Seq::empty())
    } else {
        match (all_tool_parts(ts.drop_last(), typed), tool_part(ts.last(), typed)) {
            (Some(v), Some(p)) => Some(v.push(p)),
            _ => None,
        }
    }
}

/// Where one of the objects describes no fragment, the list describes none.
pub proof fn lemma_all_tool_parts_none(ts: Seq<Tree>, typed: bool, n: int)
    requires
        0 <= n <= ts.len(),
        all_tool_parts(ts.take(n), typed) is None,
    ensures
        all_tool_parts(ts, typed) is None,
    decreases ts.len() - n,
{
    if n < ts.len() {
        assert(ts.take(n + 1).drop_last() =~= ts.take(n));
        lemma_all_tool_parts_none(ts, typed, n + 1);
    } else {
        assert(ts.take(n) =~= ts);
    }
}

/// Reads the fragment of a function.
pub fn read_function(j: &Json) -> (r: Option<FunctionDelta>)
    ensures
        r matches Some(f) ==> function_part(j@) == Some(f@),
        r is None ==> function_part(j@) is None,
{
    let names: [&str; 2] = ["name", "arguments"];
    assert(fields::names_of(names@) =~= function_members());
    let listed = fields::read_listed(j, &names, 2);
    let o = match &listed {
        Some(r) => r,
        None => j,
    };
    if o.as_object().is_none() {
        return None;
    }
    let name = match fields::read_maybe_text(o, "name") {
        Some(n) => n,
        None => return None,
    };
    let arguments = match fields::read_maybe_text(o, "arguments") {
        Some(a) => a,
        None => return None,
    };
    Some(FunctionDelta { name, arguments })
}

/// Reads the fragment of a tool call.
pub fn read_tool_delta(j: &Json, typed: bool) -> (r: Option<ToolDelta>)
    ensures
        r matches Some(d) ==> tool_part(j@, typed) == Some(d@),
        r is None ==> tool_part(j@, typed) is None,
{
    let long: [&str; 4] = ["index", "id", "type", "function"];
    let short: [&str; 3] = ["index", "id", "function"];
    assert(fields::names_of(long@) =~= tool_members(true));
    assert(fields::names_of(short@) =~= tool_members(false));
    let listed = if typed {
        fields::read_listed(j, &long, 4)
    } else {
        fields::read_listed(j, &short, 3)
    };
    let o = match &listed {
        Some(r) => r,
        None => j,
    };
    if typed && fields::read_maybe_text(o, "type").is_none() {
        return None;
    }
    let index: usize = match fields::read_number(o, "index", usize::MAX as u64) {
        Some(n) => n as usize,
        None => return None,
    };
    let id = match fields::read_maybe_text(o, "id") {
        Some(i) => i,
        None => return None,
    };
    match fields::read_member(o, "function") {
        None => Some(ToolDelta { index, id, function: None }),
        Some(f) => match read_function(f) {
            Some(p) => Some(ToolDelta { index, id, function: Some(p) }),
            None => None,
        },
    }
}

/// Reads a list of fragments.
pub fn read_tool_deltas(v: &Vec<Json>, typed: bool) -> (r: Option<Vec<ToolDelta>>)
    ensures
        r matches Some(d) ==> all_tool_parts(json::trees(v@), typed) == Some(tool_parts(d@)),
        r is None ==> all_tool_parts(json::trees(v@), typed) is None,
{
    let ghost ts = json::trees(v@);
    let mut out: Vec<ToolDelta> = Vec::new();
    let mut i: usize = 0;
    assert(tool_parts(out@) =~= Seq::empty());
    while i < v.len()
        invariant
            i <= v@.len(),
            ts == json::trees(v@),
            all_tool_parts(ts.take(i as int), typed) == Some(tool_parts(out@)),
        decreases v@.len() - i,
    {
        proof {
            assert(ts.take(i + 1).drop_last() =~= ts.take(i as int));
            assert(ts.take(i + 1).last() == v@[i as int]@);
        }
        match read_tool_delta(&v[i], typed) {
            None => {
                proof {
                    lemma_all_tool_parts_none(ts, typed, i + 1);
                }
                return None;
            },
            Some(d) => {
                let ghost before = out@;
                out.push(d);
                assert(tool_parts(out@) =~= tool_parts(before).push(d@));
            },
        }
        i = i + 1;
    }
    assert(ts.take(i as int) =~= ts);
    Some(out)
}

// ---------------------------------------------------------------------------
// Lines
// ---------------------------------------------------------------------------

/// What follows `data:` and one space in a line that was trimmed.
pub open spec fn payload(line: Seq<char>) -> Option<Seq<char>> {
    if text::begins(line, "data:"@) {
        let rest = line.skip(5);
        if text::begins(rest, " "@) {
            Some(rest.skip(1))
        } else {
            Some(rest)
        }
    } else {
        None
    }
}

/// What follows `data:` and one space in a line that was trimmed.
pub fn line_payload(line: &str) -> (r: Option<String>)
    ensures
        text::opt(r) == payload(line@),
{
    proof {
        reveal_strlit("data:");
        reveal_strlit(" ");
    }
    if !text::starts_with(line, "data:") {
        return None;
    }
    let v = text::chars_of(line);
    assert(v@.subrange(5, v@.len() as int) =~= line@.skip(5));
    let rest = text::substring(&v, 5, v.len());
    if text::starts_with(rest.as_str(), " ") {
        assert(v@.subrange(6, v@.len() as int) =~= line@.skip(5).skip(1));
        Some(text::substring(&v, 6, v.len()))
    } else {
        Some(rest)
    }
}

} // verus!
