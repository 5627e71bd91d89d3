//! Messages and tools as chat completion endpoints take them.

use crate::json;
use crate::json::{Json, Tree};
use crate::providers::types::{
    DocumentSource, ImageSource, MessageRole, ToolChoice, ToolDefinition, ToolResultContent,
    ToolResultContentBlock, UserContentBlock,
};
use crate::text;
use vstd::prelude::*;

verus! {

/// The name of a role.
pub open spec fn role_name(r: MessageRole) -> Seq<char> {
    match r {
        MessageRole::User => "user"@,
        MessageRole::Assistant => "assistant"@,
    }
}

/// The name of a role.
pub fn role_text(r: MessageRole) -> (s: &'static str)
    ensures
        s@ == role_name(r),
{
    match r {
        MessageRole::User => "user",
        MessageRole::Assistant => "assistant",
    }
}

/// A message with a role and a content.
pub open spec fn message(role: Seq<char>, content: Tree) -> Tree {
    json::empty_obj().put("role"@, Tree::Str(role)).put("content"@, content)
}

/// A message with a role and a content.
pub fn make_message(role: &str, content: Json) -> (r: Json)
    ensures
        r@ == message(role@, content@),
{
    let mut m = Json::object();
    m.put("role", Json::str(role));
    m.put("content", content);
    m
}

/// A part of text.
pub open spec fn text_part(t: Seq<char>) -> Tree {
    json::empty_obj().put("type"@, Tree::Str("text"@)).put("text"@, Tree::Str(t))
}

/// A part of text.
pub fn make_text_part(t: &str) -> (r: Json)
    ensures
        r@ == text_part(t@),
{
    let mut m = Json::object();
    m.put("type", Json::str("text"));
    m.put("text", Json::str(t));
    m
}

/// An image by its address.
pub open spec fn image_part(url: Seq<char>) -> Tree {
    json::empty_obj().put("type"@, Tree::Str("image_url"@)).put(
        "image_url"@,
        json::empty_obj().put("url"@, Tree::Str(url)),
    )
}

/// An image by its address.
pub fn make_image_part(url: &str) -> (r: Json)
    ensures
        r@ == image_part(url@),
{
    let mut inner = Json::object();
    inner.put("url", Json::str(url));
    let mut m = Json::object();
    m.put("type", Json::str("image_url"));
    m.put("image_url", inner);
    m
}

/// The address that holds its data itself.
pub open spec fn data_url(media_type: Seq<char>, data: Seq<char>) -> Seq<char> {
    "data:"@ + media_type + ";base64,"@ + data
}

/// The address that holds its data itself.
pub fn make_data_url(media_type: &str, data: &str) -> (r: String)
    ensures
        r@ == data_url(media_type@, data@),
{
    let mut s = "data:".to_owned();
    text::push_text(&mut s, media_type);
    text::push_text(&mut s, ";base64,");
    text::push_text(&mut s, data);
    s
}

/// The part of an image.
pub open spec fn image_source_part(s: ImageSource) -> Tree {
    match s {
        ImageSource::Base64 { media_type, data } => image_part(data_url(media_type@, data@)),
        ImageSource::Url { url } => image_part(url@),
    }
}

/// The part of an image.
pub fn make_image_source_part(s: &ImageSource) -> (r: Json)
    ensures
        r@ == image_source_part(*s),
{
    match s {
        ImageSource::Base64 { media_type, data } => {
            let u = make_data_url(media_type.as_str(), data.as_str());
            make_image_part(u.as_str())
        },
        ImageSource::Url { url } => make_image_part(url.as_str()),
    }
}

/// The part of a document: a text as text, and with `any` the rest as an image.
pub open spec fn document_part(s: DocumentSource, any: bool) -> Option<Tree> {
    match s {
        DocumentSource::Text { text } => Some(text_part(text@)),
        DocumentSource::Base64 { media_type, data } => if any {
            Some(image_part(data_url(media_type@, data@)))
        } else {
            None
        },
        DocumentSource::Url { url } => if any {
            Some(image_part(url@))
        } else {
            None
        },
    }
}

/// The part of a document.
pub fn make_document_part(s: &DocumentSource, any: bool) -> (r: Option<Json>)
    ensures
        crate::providers::types::opt_tree(r) == document_part(*s, any),
{
    match s {
        DocumentSource::Text { text } => Some(make_text_part(text.as_str())),
        DocumentSource::Base64 { media_type, data } => {
            if any {
                let u = make_data_url(media_type.as_str(), data.as_str());
                Some(make_image_part(u.as_str()))
            } else {
                None
            }
        },
        DocumentSource::Url { url } => {
            if any {
                Some(make_image_part(url.as_str()))
            } else {
                None
            }
        },
    }
}

/// The text of a block of a tool result; an image has none.
pub open spec fn result_block_text(b: ToolResultContentBlock) -> Seq<char> {
    match b {
        ToolResultContentBlock::Text { text } => text@,
        ToolResultContentBlock::Image { source } => Seq::empty(),
    }
}

/// The text of a tool result, its blocks on lines of their own.
pub open spec fn result_text(c: ToolResultContent) -> Seq<char> {
    match c {
        ToolResultContent::Text(t) => t@,
        ToolResultContent::Blocks(v) => text::joined(
            v@.map_values(|b: ToolResultContentBlock| result_block_text(b)),
            "\n"@,
        ),
    }
}

/// The text of a tool result.
pub fn make_result_text(c: &ToolResultContent) -> (r: String)
    ensures
        r@ == result_text(*c),
{
    match c {
        ToolResultContent::Text(t) => t.clone(),
        ToolResultContent::Blocks(v) => {
            let mut parts: Vec<String> = Vec::new();
            let ghost ts = v@.map_values(|b: ToolResultContentBlock| result_block_text(b));
            let mut i: usize = 0;
            while i < v.len()
                invariant
                    i <= v@.len(),
                    ts == v@.map_values(|b: ToolResultContentBlock| result_block_text(b)),
                    text::texts(parts@) =~= ts.take(i as int),
                decreases v@.len() - i,
            {
                let t = match &v[i] {
                    ToolResultContentBlock::Text { text } => text.clone(),
                    ToolResultContentBlock::Image { source } => String::new(),
                };
                let ghost before = parts@;
                parts.push(t);
                assert(text::texts(parts@) =~= text::texts(before).push(t@));
                i = i + 1;
            }
            assert(ts.take(i as int) =~= ts);
            text::join(&parts, "\n")
        },
    }
}

/// The message of a tool result, where the block is one.
pub open spec fn tool_message(b: UserContentBlock) -> Option<Tree> {
    match b {
        UserContentBlock::ToolResult(r) => Some(
            json::empty_obj().put("role"@, Tree::Str("tool"@)).put(
                "tool_call_id"@,
                Tree::Str(r.tool_use_id@),
            ).put("content"@, Tree::Str(result_text(r.content))),
        ),
        _ => None,
    }
}

/// The part of a user message that a block is, where it is one.
pub open spec fn user_part(b: UserContentBlock, any: bool) -> Option<Tree> {
    match b {
        UserContentBlock::Text(t) => Some(text_part(t.text@)),
        UserContentBlock::Image(i) => Some(image_source_part(i.source)),
        UserContentBlock::Document(d) => document_part(d.source, any),
        UserContentBlock::ToolResult(r) => None,
    }
}

/// The parts of a user message.
pub open spec fn user_parts(blocks: Seq<UserContentBlock>, any: bool) -> Seq<Tree>
    decreases blocks.len(),
{
    if blocks.len() == 0 {
        Seq::empty()
    } else {
        let rest = user_parts(blocks.drop_last(), any);
        match user_part(blocks.last(), any) {
            Some(p) => rest.push(p),
            None => rest,
        }
    }
}

/// The messages of the tool results.
pub open spec fn tool_messages(blocks: Seq<UserContentBlock>) -> Seq<Tree>
    decreases blocks.len(),
{
    if blocks.len() == 0 {
        Seq::empty()
    } else {
        let rest = tool_messages(blocks.drop_last());
        match tool_message(blocks.last()) {
            Some(m) => rest.push(m),
            None => rest,
        }
    }
}

/// The messages that a user turn becomes. A single text stands by itself. Else the
/// parts form one message, and each tool result one of its own, before
/// (`results_first`) or after it.
pub open spec fn user_messages(
    role: Seq<char>,
    blocks: Seq<UserContentBlock>,
    any: bool,
    results_first: bool,
) -> Seq<Tree> {
    if blocks.len() == 1 && blocks[0] is Text {
        seq![message(role, Tree::Str(blocks[0]->Text_0.text@))]
    } else {
        let parts = user_parts(blocks, any);
        let content = if parts.len() > 0 {
            seq![message(role, Tree::Arr(parts))]
        } else {
            Seq::empty()
        };
        if results_first {
            tool_messages(blocks) + content
        } else {
            content + tool_messages(blocks)
        }
    }
}

/// Appends a value to a list.
pub fn push_json(v: &mut Vec<Json>, j: Json)
    ensures
        json::trees(final(v)@) == json::trees(old(v)@).push(j@),
{
    v.push(j);
    assert(json::trees(v@) =~= json::trees(old(v)@).push(j@));
}

/// Appends a list to a list.
pub fn append_json(v: &mut Vec<Json>, more: Vec<Json>)
    ensures
        json::trees(final(v)@) == json::trees(old(v)@) + json::trees(more@),
{
    let mut m = more;
    v.append(&mut m);
    assert(json::trees(v@) =~= json::trees(old(v)@) + json::trees(more@));
}

/// An empty list.
pub fn no_json() -> (v: Vec<Json>)
    ensures
        json::trees(v@) == Seq::<Tree>::empty(),
{
    let v: Vec<Json> = Vec::new();
    assert(json::trees(v@) =~= Seq::empty());
    v
}

/// The messages that a user turn becomes.
pub fn make_user_messages(
    role: &str,
    blocks: &Vec<UserContentBlock>,
    any: bool,
    results_first: bool,
) -> (r: Vec<Json>)
    ensures
        json::trees(r@) == user_messages(role@, blocks@, any, results_first),
{
    if blocks.len() == 1 {
        if let UserContentBlock::Text(t) = &blocks[0] {
            let mut one = no_json();
            push_json(&mut one, make_message(role, Json::str(t.text.as_str())));
            assert(json::trees(one@) =~= user_messages(role@, blocks@, any, results_first));
            return one;
        }
    }
    let mut parts = no_json();
    let mut results = no_json();
    let mut i: usize = 0;
    assert(blocks@.take(0) =~= Seq::empty());
    while i < blocks.len()
        invariant
            i <= blocks@.len(),
            json::trees(parts@) == user_parts(blocks@.take(i as int), any),
            json::trees(results@) == tool_messages(blocks@.take(i as int)),
        decreases blocks@.len() - i,
    {
        proof {
            assert(blocks@.take(i + 1).drop_last() =~= blocks@.take(i as int));
            assert(blocks@.take(i + 1).last() == blocks@[i as int]);
        }
        match &blocks[i] {
            UserContentBlock::Text(t) => {
                push_json(&mut parts, make_text_part(t.text.as_str()));
            },
            UserContentBlock::Image(img) => {
                push_json(&mut parts, make_image_source_part(&img.source));
            },
            UserContentBlock::Document(d) => {
                if let Some(p) = make_document_part(&d.source, any) {
                    push_json(&mut parts, p);
                }
            },
            UserContentBlock::ToolResult(t) => {
                let content = make_result_text(&t.content);
                let mut m = Json::object();
                m.put("role", Json::str("tool"));
                m.put("tool_call_id", Json::str(t.tool_use_id.as_str()));
                m.put("content", Json::str(content.as_str()));
                push_json(&mut results, m);
            },
        }
        i = i + 1;
    }
    assert(blocks@.take(i as int) =~= blocks@);
    let mut content = no_json();
    if parts.len() > 0 {
        push_json(&mut content, make_message(role, Json::array(parts)));
    }
    let mut out = no_json();
    if results_first {
        append_json(&mut out, results);
        append_json(&mut out, content);
    } else {
        append_json(&mut out, content);
        append_json(&mut out, results);
    }
    assert(json::trees(out@) =~= user_messages(role@, blocks@, any, results_first));
    out
}

// ---------------------------------------------------------------------------
// Tools
// ---------------------------------------------------------------------------

/// A tool as a function definition.
pub open spec fn tool_tree(t: ToolDefinition) -> Tree {
    json::empty_obj().put("type"@, Tree::Str("function"@)).put(
        "function"@,
        json::empty_obj().put("name"@, Tree::Str(t.function.name@)).put(
            "description"@,
            Tree::Str(t.function.description@),
        ).put("parameters"@, t.function.parameters@),
    )
}

/// The tools as an array.
pub open spec fn tools_tree(v: Seq<ToolDefinition>) -> Tree {
    Tree::Arr(v.map_values(|t: ToolDefinition| tool_tree(t)))
}

/// The tools as an array.
pub fn make_tools(v: &Vec<ToolDefinition>) -> (r: Json)
    ensures
        r@ == tools_tree(v@),
{
    let mut out = no_json();
    let ghost ts = v@.map_values(|t: ToolDefinition| tool_tree(t));
    let mut i: usize = 0;
    while i < v.len()
        invariant
            i <= v@.len(),
            ts == v@.map_values(|t: ToolDefinition| tool_tree(t)),
            json::trees(out@) =~= ts.take(i as int),
        decreases v@.len() - i,
    {
        let t = &v[i];
        let mut f = Json::object();
        f.put("name", Json::str(t.function.name.as_str()));
        f.put("description", Json::str(t.function.description.as_str()));
        f.put("parameters", t.function.parameters.copy());
        let mut m = Json::object();
        m.put("type", Json::str("function"));
        m.put("function", f);
        assert(ts[i as int] == m@);
        push_json(&mut out, m);
        i = i + 1;
    }
    assert(ts.take(i as int) =~= ts);
    Json::array(out)
}

/// The choice of tools; by default the model decides.
pub open spec fn tool_choice_tree(c: Option<ToolChoice>) -> Tree {
    match c {
        None => Tree::Str("auto"@),
        Some(ToolChoice::Auto) => Tree::Str("auto"@),
        Some(ToolChoice::Required) => Tree::Str("required"@),
        Some(ToolChoice::NoTool) => Tree::Str("none"@),
        Some(ToolChoice::Named(n)) => json::empty_obj().put("type"@, Tree::Str("function"@)).put(
            "function"@,
            json::empty_obj().put("name"@, Tree::Str(n@)),
        ),
    }
}

/// The choice of tools.
pub fn make_tool_choice(c: &Option<ToolChoice>) -> (r: Json)
    ensures
        r@ == tool_choice_tree(*c),
{
    match c {
        None => Json::str("auto"),
        Some(ToolChoice::Auto) => Json::str("auto"),
        Some(ToolChoice::Required) => Json::str("required"),
        Some(ToolChoice::NoTool) => Json::str("none"),
        Some(ToolChoice::Named(n)) => {
            let mut f = Json::object();
            f.put("name", Json::str(n.as_str()));
            let mut m = Json::object();
            m.put("type", Json::str("function"));
            m.put("function", f);
            m
        },
    }
}

} // verus!
