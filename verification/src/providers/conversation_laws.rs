//! What a stored conversation is sent for: whatever was said, called or answered stands in
//! the request, in its place and as it was.

use crate::json;
use crate::json::Tree;
use crate::providers::anthropic;
use crate::providers::chat_format;
use crate::providers::gemini_format;
use crate::providers::gemini_format::{FunctionCall, FunctionResponse, Part};
use crate::providers::minimax;
use crate::providers::openai;
use crate::providers::types::{
    AssistantContentBlock, DocumentSource, ImageSource, MessageContent, ProviderRequest,
    ReasoningDetailParam,
    StorageMessage, ToolChoice, ToolDefinition, ToolResultContent, ToolResultContentBlock,
    UserContentBlock,
};
use crate::text;
use vstd::prelude::*;

verus! {

// ---------------------------------------------------------------------------
// Objects
// ---------------------------------------------------------------------------

/// A member that is a text.
pub open spec fn has_text(t: Tree, key: Seq<char>, s: Seq<char>) -> bool {
    t.get(key) == Some(Tree::Str(s))
}

/// An object of two members.
pub proof fn lemma_two(k1: Seq<char>, v1: Tree, k2: Seq<char>, v2: Tree)
    requires
        k1 != k2,
    ensures
        json::empty_obj().put(k1, v1) is Obj,
        json::empty_obj().put(k1, v1).get(k1) == Some(v1),
        json::empty_obj().put(k1, v1).put(k2, v2) is Obj,
        json::empty_obj().put(k1, v1).put(k2, v2).get(k1) == Some(v1),
        json::empty_obj().put(k1, v1).put(k2, v2).get(k2) == Some(v2),
{
    let e = json::empty_obj();
    json::law_put_then_get(e, k1, v1, k1);
    json::law_put_then_get(e.put(k1, v1), k2, v2, k1);
}

/// An object of three members.
pub proof fn lemma_three(k1: Seq<char>, v1: Tree, k2: Seq<char>, v2: Tree, k3: Seq<char>, v3: Tree)
    requires
        k1 != k2,
        k1 != k3,
        k2 != k3,
    ensures
        ({
            let o = json::empty_obj().put(k1, v1).put(k2, v2).put(k3, v3);
            &&& o is Obj
            &&& o.get(k1) == Some(v1)
            &&& o.get(k2) == Some(v2)
            &&& o.get(k3) == Some(v3)
        }),
{
    lemma_two(k1, v1, k2, v2);
    let o = json::empty_obj().put(k1, v1).put(k2, v2);
    json::law_put_then_get(o, k3, v3, k1);
    json::law_put_then_get(o, k3, v3, k2);
}

/// An object of four members.
pub proof fn lemma_four(
    k1: Seq<char>,
    v1: Tree,
    k2: Seq<char>,
    v2: Tree,
    k3: Seq<char>,
    v3: Tree,
    k4: Seq<char>,
    v4: Tree,
)
    requires
        k1 != k2,
        k1 != k3,
        k2 != k3,
        k1 != k4,
        k2 != k4,
        k3 != k4,
    ensures
        ({
            let o = json::empty_obj().put(k1, v1).put(k2, v2).put(k3, v3).put(k4, v4);
            &&& o is Obj
            &&& o.get(k1) == Some(v1)
            &&& o.get(k2) == Some(v2)
            &&& o.get(k3) == Some(v3)
            &&& o.get(k4) == Some(v4)
        }),
{
    lemma_three(k1, v1, k2, v2, k3, v3);
    let o = json::empty_obj().put(k1, v1).put(k2, v2).put(k3, v3);
    json::law_put_then_get(o, k4, v4, k1);
    json::law_put_then_get(o, k4, v4, k2);
    json::law_put_then_get(o, k4, v4, k3);
}

/// The keys of messages and parts differ.
pub proof fn lemma_keys()
    ensures
        "id"@.len() == 2,
        "url"@.len() == 3,
        "role"@.len() == 4,
        "type"@.len() == 4,
        "text"@.len() == 4,
        "name"@.len() == 4,
        "args"@.len() == 4,
        "data"@.len() == 4,
        "input"@.len() == 5,
        "source"@.len() == 6,
        "content"@.len() == 7,
        "thought"@.len() == 7,
        "fileUri"@.len() == 7,
        "mimeType"@.len() == 8,
        "response"@.len() == 8,
        "thinking"@.len() == 8,
        "function"@.len() == 8,
        "fileData"@.len() == 8,
        "tool_use"@.len() == 8,
        "signature"@.len() == 9,
        "image_url"@.len() == 9,
        "arguments"@.len() == 9,
        "media_type"@.len() == 10,
        "tool_calls"@.len() == 10,
        "inlineData"@.len() == 10,
        "parameters"@.len() == 10,
        "description"@.len() == 11,
        "tool_use_id"@.len() == 11,
        "tool_call_id"@.len() == 12,
        "input_schema"@.len() == 12,
        "functionCall"@.len() == 12,
        "cache_control"@.len() == 13,
        "thoughtSignature"@.len() == 16,
        "functionResponse"@.len() == 16,
        "reasoning_details"@.len() == 17,
        "assistant"@.len() == 9,
        "type"@ != "text"@,
        "type"@ != "name"@,
        "type"@ != "data"@,
        "type"@ != "role"@,
        "name"@ != "args"@,
        "thinking"@ != "tool_use"@,
        "tool_use"@ != "text"@,
        "tool_use"@ != "image_url"@,
        "thoughtSignature"@ != "functionResponse"@,
        "media_type"@ != "inlineData"@,
        "parts"@.len() == 5,
{
    reveal_strlit("id");
    reveal_strlit("url");
    reveal_strlit("role");
    reveal_strlit("type");
    reveal_strlit("text");
    reveal_strlit("name");
    reveal_strlit("args");
    reveal_strlit("data");
    reveal_strlit("input");
    reveal_strlit("parts");
    reveal_strlit("source");
    reveal_strlit("content");
    reveal_strlit("thought");
    reveal_strlit("fileUri");
    reveal_strlit("mimeType");
    reveal_strlit("response");
    reveal_strlit("thinking");
    reveal_strlit("function");
    reveal_strlit("fileData");
    reveal_strlit("tool_use");
    reveal_strlit("signature");
    reveal_strlit("image_url");
    reveal_strlit("arguments");
    reveal_strlit("assistant");
    reveal_strlit("media_type");
    reveal_strlit("tool_calls");
    reveal_strlit("inlineData");
    reveal_strlit("parameters");
    reveal_strlit("description");
    reveal_strlit("tool_use_id");
    reveal_strlit("tool_call_id");
    reveal_strlit("input_schema");
    reveal_strlit("functionCall");
    reveal_strlit("cache_control");
    reveal_strlit("thoughtSignature");
    reveal_strlit("functionResponse");
    reveal_strlit("reasoning_details");
    assert("type"@[1] == 'y');
    assert("text"@[1] == 'e');
    assert("name"@[1] == 'a');
    assert("args"@[1] == 'r');
    assert("data"@[1] == 'a');
    assert("role"@[1] == 'o');
    assert("thinking"@[1] == 'h');
    assert("tool_use"@[1] == 'o');
    assert("thoughtSignature"@[0] == 't');
    assert("functionResponse"@[0] == 'f');
    assert("media_type"@[0] == 'm');
    assert("inlineData"@[0] == 'i');
}

// ---------------------------------------------------------------------------
// Gemini
// ---------------------------------------------------------------------------

/// A part that says a text and nothing else.
pub open spec fn is_said(p: Part, t: Seq<char>) -> bool {
    &&& p.text == Some(t)
    &&& p.thought is None
    &&& p.call is None
    &&& p.response is None
    &&& p.inline_data is None
    &&& p.file_data is None
}

/// A part that shows an image and nothing else: its data, or its address.
pub open spec fn is_image(p: Part, s: ImageSource) -> bool {
    &&& p.text is None
    &&& p.thought is None
    &&& p.call is None
    &&& p.response is None
    &&& match s {
        ImageSource::Base64 { media_type, data } => p.inline_data == Some((media_type@, data@))
            && p.file_data is None,
        ImageSource::Url { url } => p.inline_data is None && p.file_data is Some && (
        p.file_data->0).0 == url@,
    }
}

/// The part is what a block of the model said or did.
pub open spec fn is_model_part(p: Part, b: AssistantContentBlock) -> bool {
    match b {
        AssistantContentBlock::Text(t) => is_said(p, t.text@) && (t.shared.signature is Some
            ==> p.signature == text::opt(t.shared.signature)),
        AssistantContentBlock::Thinking(t) => p == (Part {
            text: Some(t.thinking@),
            thought: Some(true),
            signature: Some(t.signature@),
            call: None,
            response: None,
            inline_data: None,
            file_data: None,
        }),
        AssistantContentBlock::ToolUse(t) => p == (Part {
            text: None,
            thought: None,
            signature: text::opt(t.shared.signature),
            call: Some(FunctionCall { name: t.name@, args: Some(t.input@), id: Some(t.id@) }),
            response: None,
            inline_data: None,
            file_data: None,
        }),
        AssistantContentBlock::Image(i) => is_image(p, i.source) && p.signature == text::opt(
            i.shared.signature,
        ),
        AssistantContentBlock::Document(d) => d.source is Text && is_said(
            p,
            d.source->Text_text@,
        ) && p.signature == text::opt(d.shared.signature),
        AssistantContentBlock::RedactedThinking(_) => false,
    }
}

/// A block of the model that is sent: anything but redacted thinking and documents that
/// are no text.
pub open spec fn is_sent(b: AssistantContentBlock) -> bool {
    match b {
        AssistantContentBlock::RedactedThinking(_) => false,
        AssistantContentBlock::Document(d) => d.source is Text,
        _ => true,
    }
}

/// The number of blocks that are sent among the first `n`.
pub open spec fn sent_before(v: Seq<AssistantContentBlock>, n: int) -> int
    decreases n,
{
    if n <= 0 {
        0
    } else {
        sent_before(v, n - 1) + (if is_sent(v[n - 1]) {
            1int
        } else {
            0
        })
    }
}

proof fn lemma_sent_before(v: Seq<AssistantContentBlock>, n: int)
    requires
        0 <= n < v.len(),
    ensures
        sent_before(v.drop_last(), n) == sent_before(v, n),
        0 <= sent_before(v, n),
    decreases n,
{
    if n > 0 {
        lemma_sent_before(v, n - 1);
    }
}

/// Every block of the model stands among the parts, in its place and as it was: texts,
/// thoughts with their signature, images, and calls with their name, their identifier and
/// exactly their input.
pub proof fn law_gemini_keeps_what_the_model_did(v: Seq<AssistantContentBlock>)
    ensures
        gemini_format::model_parts(v).len() == sent_before(v, v.len() as int),
        forall|k: int|
            0 <= k < v.len() && is_sent(#[trigger] v[k]) ==> 0 <= sent_before(v, k)
                < gemini_format::model_parts(v).len() && is_model_part(
                gemini_format::model_parts(v)[sent_before(v, k)],
                v[k],
            ),
    decreases v.len(),
{
    if v.len() > 0 {
        let p = v.drop_last();
        law_gemini_keeps_what_the_model_did(p);
        lemma_sent_before(v, p.len() as int);
        let all = gemini_format::model_parts(v);
        assert forall|k: int| 0 <= k < v.len() && is_sent(#[trigger] v[k]) implies 0 <= sent_before(
            v,
            k,
        ) < all.len() && is_model_part(all[sent_before(v, k)], v[k]) by {
            lemma_sent_before(v, k);
            if k < p.len() {
                assert(p[k] == v[k]);
                assert(all[sent_before(v, k)] == gemini_format::model_parts(p)[sent_before(p, k)]);
            }
        }
    }
}

/// Every block of a user becomes one part, in its place and as it was: texts, images,
/// documents, and the results of calls under the identifier of their call.
pub proof fn law_gemini_keeps_what_the_user_said(
    v: Seq<UserContentBlock>,
    calls: Seq<(Seq<char>, Seq<char>)>,
    k: int,
)
    requires
        0 <= k < v.len(),
    ensures
        gemini_format::user_parts(v, calls).len() == v.len(),
        ({
            let p = gemini_format::user_parts(v, calls)[k];
            match v[k] {
                UserContentBlock::Text(t) => is_said(p, t.text@) && (t.shared.signature is Some
                    ==> p.signature == text::opt(t.shared.signature)),
                UserContentBlock::Image(i) => is_image(p, i.source),
                UserContentBlock::Document(d) => match d.source {
                    DocumentSource::Text { text } => is_said(p, text@),
                    DocumentSource::Base64 { media_type, data } => p.inline_data == Some(
                        (media_type@, data@),
                    ) && p.text is None,
                    DocumentSource::Url { url } => is_said(p, "[Document: "@ + url@ + "]"@),
                },
                UserContentBlock::ToolResult(r) => p.text is None && p.call is None
                    && p.response is Some && (p.response->0).id == Some(r.tool_use_id@) && (
                match r.content {
                    ToolResultContent::Text(t) => has_text((p.response->0).response, "result"@, t@),
                    ToolResultContent::Blocks(_) => (p.response->0).response.get("result"@) is Some,
                }),
            }
        }),
{
    if let UserContentBlock::ToolResult(r) = v[k] {
        json::law_put_then_get(
            json::empty_obj(),
            "result"@,
            Tree::Str(gemini_format::result_text(r.content)),
            "result"@,
        );
    }
    if let UserContentBlock::Text(t) = v[k] {
        assert(v.take(k + 1).last() == v[k]);
    }
}

/// Every message becomes one content: in its place, under its role, with a plain text as
/// its only part.
pub proof fn law_gemini_keeps_messages(v: Seq<StorageMessage>, i: int)
    requires
        0 <= i < v.len(),
    ensures
        gemini_format::contents(v).len() == v.len(),
        ({
            let c = gemini_format::contents(v)[i];
            &&& v[i].role is User ==> c.role == "user"@
            &&& v[i].role is Assistant ==> c.role == "model"@
            &&& v[i].content is Text ==> c.parts.len() == 1 && is_said(
                c.parts[0],
                v[i].content->Text_0@,
            )
            &&& v[i].content is UserBlocks ==> c.parts == gemini_format::user_parts(
                v[i].content->UserBlocks_0@,
                gemini_format::calls(v),
            )
            &&& v[i].content is AssistantBlocks ==> c.parts == gemini_format::model_parts(
                v[i].content->AssistantBlocks_0@,
            )
        }),
{
}

/// The last call with an identifier names the function of its results.
pub proof fn law_last_call_names_the_function(
    before: Seq<(Seq<char>, Seq<char>)>,
    id: Seq<char>,
    name: Seq<char>,
    after: Seq<(Seq<char>, Seq<char>)>,
)
    requires
        forall|i: int| 0 <= i < after.len() ==> (#[trigger] after[i]).0 != id,
    ensures
        gemini_format::called(before.push((id, name)) + after, id) == Some(name),
    decreases after.len(),
{
    let all = before.push((id, name)) + after;
    if after.len() == 0 {
        assert(all =~= before.push((id, name)));
    } else {
        assert(all.drop_last() =~= before.push((id, name)) + after.drop_last());
        assert(all.last() == after[after.len() - 1]);
        assert forall|i: int| 0 <= i < after.drop_last().len() implies (
        #[trigger] after.drop_last()[i]).0 != id by {
            assert(after[i].0 != id);
        }
        law_last_call_names_the_function(before, id, name, after.drop_last());
    }
}

/// Every tool use block of a conversation is a call of it.
pub proof fn law_tool_uses_are_calls(v: Seq<StorageMessage>, i: int, k: int)
    requires
        0 <= i < v.len(),
        v[i].content is AssistantBlocks,
        0 <= k < v[i].content->AssistantBlocks_0@.len(),
        v[i].content->AssistantBlocks_0@[k] is ToolUse,
    ensures
        gemini_format::calls(v).contains(
            (
                v[i].content->AssistantBlocks_0@[k]->ToolUse_0.id@,
                v[i].content->AssistantBlocks_0@[k]->ToolUse_0.name@,
            ),
        ),
    decreases v.len(),
{
    let b = v[i].content->AssistantBlocks_0@;
    let want = (b[k]->ToolUse_0.id@, b[k]->ToolUse_0.name@);
    let p = v.drop_last();
    let own = gemini_format::message_calls(v.last());
    let all = gemini_format::calls(v);
    if i == v.len() - 1 {
        lemma_block_calls(b, k);
        let j = choose|j: int| 0 <= j < own.len() && own[j] == want;
        assert(all[gemini_format::calls(p).len() + j] == want);
    } else {
        assert(p[i] == v[i]);
        law_tool_uses_are_calls(p, i, k);
        let few = gemini_format::calls(p);
        let j = choose|j: int| 0 <= j < few.len() && few[j] == want;
        assert(all[j] == want);
    }
}

proof fn lemma_block_calls(b: Seq<AssistantContentBlock>, k: int)
    requires
        0 <= k < b.len(),
        b[k] is ToolUse,
    ensures
        gemini_format::block_calls(b).contains((b[k]->ToolUse_0.id@, b[k]->ToolUse_0.name@)),
    decreases b.len(),
{
    let want = (b[k]->ToolUse_0.id@, b[k]->ToolUse_0.name@);
    let all = gemini_format::block_calls(b);
    if k == b.len() - 1 {
        assert(all[all.len() - 1] == want);
    } else {
        lemma_block_calls(b.drop_last(), k);
        let few = gemini_format::block_calls(b.drop_last());
        let j = choose|j: int| 0 <= j < few.len() && few[j] == want;
        assert(all[j] == want);
    }
}

/// A part says in JSON what it holds: its text, whether it is a thought, its signature, its
/// call with name, arguments and identifier, and its response.
pub proof fn law_gemini_parts_in_json(p: Part)
    ensures
        ({
            let t = gemini_format::part_tree(p);
            &&& t is Obj
            &&& p.text is Some ==> has_text(t, "text"@, p.text->0)
            &&& p.thought is Some ==> t.get("thought"@) == Some(Tree::Bool(p.thought->0))
            &&& p.signature is Some ==> has_text(t, "thoughtSignature"@, p.signature->0)
            &&& p.call is Some ==> t.get("functionCall"@) is Some && is_call_json(
                t.get("functionCall"@)->0,
                p.call->0,
            )
            &&& p.response is Some ==> t.get("functionResponse"@) is Some && is_response_json(
                t.get("functionResponse"@)->0,
                p.response->0,
            )
            &&& p.inline_data is Some ==> t.get("inlineData"@) is Some && has_text(
                t.get("inlineData"@)->0,
                "mimeType"@,
                (p.inline_data->0).0,
            ) && has_text(t.get("inlineData"@)->0, "data"@, (p.inline_data->0).1)
            &&& p.file_data is Some ==> t.get("fileData"@) is Some && has_text(
                t.get("fileData"@)->0,
                "fileUri"@,
                (p.file_data->0).0,
            ) && has_text(t.get("fileData"@)->0, "mimeType"@, (p.file_data->0).1)
        }),
{
    lemma_keys();
    let e = json::empty_obj();
    let a = minimax::put_opt(e, "text"@, gemini_format::maybe_str(p.text));
    lemma_keep(e, "text"@, gemini_format::maybe_str(p.text));
    let thought = match p.thought {
        Some(x) => Some(Tree::Bool(x)),
        None => None,
    };
    let b = minimax::put_opt(a, "thought"@, thought);
    lemma_keep(a, "thought"@, thought);
    let c = minimax::put_opt(b, "thoughtSignature"@, gemini_format::maybe_str(p.signature));
    lemma_keep(b, "thoughtSignature"@, gemini_format::maybe_str(p.signature));
    let call = match p.call {
        Some(x) => Some(gemini_format::call_tree(x)),
        None => None,
    };
    let d = minimax::put_opt(c, "functionCall"@, call);
    lemma_keep(c, "functionCall"@, call);
    let response = match p.response {
        Some(x) => Some(gemini_format::response_tree(x)),
        None => None,
    };
    let f = minimax::put_opt(d, "functionResponse"@, response);
    lemma_keep(d, "functionResponse"@, response);
    let inline = match p.inline_data {
        Some(x) => Some(
            json::empty_obj().put("mimeType"@, Tree::Str(x.0)).put("data"@, Tree::Str(x.1)),
        ),
        None => None,
    };
    let g = minimax::put_opt(f, "inlineData"@, inline);
    lemma_keep(f, "inlineData"@, inline);
    let file = match p.file_data {
        Some(x) => Some(
            json::empty_obj().put("fileUri"@, Tree::Str(x.0)).put("mimeType"@, Tree::Str(x.1)),
        ),
        None => None,
    };
    lemma_keep(g, "fileData"@, file);
    if let Some(x) = p.inline_data {
        lemma_two("mimeType"@, Tree::Str(x.0), "data"@, Tree::Str(x.1));
    }
    if let Some(x) = p.file_data {
        lemma_two("fileUri"@, Tree::Str(x.0), "mimeType"@, Tree::Str(x.1));
    }
    if let Some(x) = p.call {
        let n = Tree::Str(x.name);
        let one = e.put("name"@, n);
        json::law_put_then_get(e, "name"@, n, "name"@);
        let two = minimax::put_opt(one, "args"@, x.args);
        if let Some(y) = x.args {
            json::law_put_then_get(one, "args"@, y, "name"@);
        }
        if let Some(y) = x.id {
            json::law_put_then_get(two, "id"@, Tree::Str(y), "name"@);
            json::law_put_then_get(two, "id"@, Tree::Str(y), "args"@);
        }
    }
    if let Some(x) = p.response {
        lemma_two("name"@, Tree::Str(x.name), "response"@, x.response);
        let two = e.put("name"@, Tree::Str(x.name)).put("response"@, x.response);
        if let Some(y) = x.id {
            json::law_put_then_get(two, "id"@, Tree::Str(y), "name"@);
            json::law_put_then_get(two, "id"@, Tree::Str(y), "response"@);
        }
    }
}

/// A call in JSON: its name, its arguments and its identifier.
pub open spec fn is_call_json(t: Tree, c: FunctionCall) -> bool {
    &&& has_text(t, "name"@, c.name)
    &&& c.args is Some ==> t.get("args"@) == c.args
    &&& c.id is Some ==> has_text(t, "id"@, c.id->0)
}

/// A response in JSON: the name of its function, what it holds and its identifier.
pub open spec fn is_response_json(t: Tree, r: FunctionResponse) -> bool {
    &&& has_text(t, "name"@, r.name)
    &&& t.get("response"@) == Some(r.response)
    &&& r.id is Some ==> has_text(t, "id"@, r.id->0)
}

/// A further member of a part leaves the others as they are.
proof fn lemma_keep(t: Tree, key: Seq<char>, v: Option<Tree>)
    requires
        t is Obj,
    ensures
        ({
            let o = minimax::put_opt(t, key, v);
            &&& o is Obj
            &&& v is Some ==> o.get(key) == v
            &&& v is None ==> o == t
            &&& key != "text"@ ==> o.get("text"@) == t.get("text"@)
            &&& key != "thought"@ ==> o.get("thought"@) == t.get("thought"@)
            &&& key != "thoughtSignature"@ ==> o.get("thoughtSignature"@) == t.get(
                "thoughtSignature"@,
            )
            &&& key != "functionCall"@ ==> o.get("functionCall"@) == t.get("functionCall"@)
            &&& key != "functionResponse"@ ==> o.get("functionResponse"@) == t.get(
                "functionResponse"@,
            )
            &&& key != "inlineData"@ ==> o.get("inlineData"@) == t.get("inlineData"@)
        }),
{
    if let Some(x) = v {
        json::law_put_then_get(t, key, x, "text"@);
        json::law_put_then_get(t, key, x, "thought"@);
        json::law_put_then_get(t, key, x, "thoughtSignature"@);
        json::law_put_then_get(t, key, x, "functionCall"@);
        json::law_put_then_get(t, key, x, "functionResponse"@);
        json::law_put_then_get(t, key, x, "inlineData"@);
    }
}

/// A content says in JSON its role and all of its parts, in order.
pub proof fn law_gemini_contents_in_json(c: gemini_format::Content)
    ensures
        ({
            let t = gemini_format::content_tree(c);
            &&& has_text(t, "role"@, c.role)
            &&& t.get("parts"@) is Some && t.get("parts"@)->0 is Arr
            &&& (t.get("parts"@)->0->Arr_0).len() == c.parts.len()
            &&& forall|k: int|
                0 <= k < c.parts.len() ==> (#[trigger] t.get("parts"@)->0->Arr_0[k])
                    == gemini_format::part_tree(c.parts[k])
        }),
{
    lemma_keys();
    lemma_two(
        "role"@,
        Tree::Str(c.role),
        "parts"@,
        Tree::Arr(c.parts.map_values(|p: Part| gemini_format::part_tree(p))),
    );
}

// ---------------------------------------------------------------------------
// Anthropic
// ---------------------------------------------------------------------------

/// A source in JSON.
pub open spec fn is_image_json(t: Tree, s: ImageSource) -> bool {
    &&& has_text(t, "type"@, "image"@)
    &&& t.get("source"@) is Some
    &&& match s {
        ImageSource::Base64 { media_type, data } => is_data_json(
            t.get("source"@)->0,
            media_type@,
            data@,
        ),
        ImageSource::Url { url } => is_url_json(t.get("source"@)->0, url@),
    }
}

/// Data in JSON.
pub open spec fn is_data_json(t: Tree, media_type: Seq<char>, data: Seq<char>) -> bool {
    &&& has_text(t, "type"@, "base64"@)
    &&& has_text(t, "media_type"@, media_type)
    &&& has_text(t, "data"@, data)
}

/// An address in JSON.
pub open spec fn is_url_json(t: Tree, url: Seq<char>) -> bool {
    &&& has_text(t, "type"@, "url"@)
    &&& has_text(t, "url"@, url)
}

/// A text in JSON.
pub open spec fn is_text_json(t: Tree, s: Seq<char>) -> bool {
    &&& has_text(t, "type"@, "text"@)
    &&& has_text(t, "text"@, s)
}

pub proof fn lemma_text_json(s: Seq<char>)
    ensures
        is_text_json(chat_format::text_part(s), s),
        chat_format::text_part(s) is Obj,
{
    lemma_keys();
    lemma_two("type"@, Tree::Str("text"@), "text"@, Tree::Str(s));
}

proof fn lemma_data_json(m: Seq<char>, d: Seq<char>)
    ensures
        is_data_json(anthropic::data_source(m, d), m, d),
{
    lemma_keys();
    lemma_three(
        "type"@,
        Tree::Str("base64"@),
        "media_type"@,
        Tree::Str(m),
        "data"@,
        Tree::Str(d),
    );
}

proof fn lemma_url_json(u: Seq<char>)
    ensures
        is_url_json(anthropic::url_source(u), u),
{
    lemma_keys();
    lemma_two("type"@, Tree::Str("url"@), "url"@, Tree::Str(u));
}

proof fn lemma_image_json(s: ImageSource)
    ensures
        is_image_json(anthropic::image_block(s), s),
{
    lemma_keys();
    match s {
        ImageSource::Base64 { media_type, data } => {
            lemma_data_json(media_type@, data@);
            lemma_two(
                "type"@,
                Tree::Str("image"@),
                "source"@,
                anthropic::data_source(media_type@, data@),
            );
        },
        ImageSource::Url { url } => {
            lemma_url_json(url@);
            lemma_two("type"@, Tree::Str("image"@), "source"@, anthropic::url_source(url@));
        },
    }
}

/// A document in JSON: a text as text, data under its type, an address as an address.
pub open spec fn is_document_json(t: Tree, s: DocumentSource) -> bool {
    match s {
        DocumentSource::Text { text } => is_text_json(t, text@),
        DocumentSource::Base64 { media_type, data } => t.get("source"@) is Some && is_data_json(
            t.get("source"@)->0,
            media_type@,
            data@,
        ) && (has_text(t, "type"@, "image"@) || has_text(t, "type"@, "document"@)),
        DocumentSource::Url { url } => has_text(t, "type"@, "document"@) && t.get(
            "source"@,
        ) is Some && is_url_json(t.get("source"@)->0, url@),
    }
}

proof fn lemma_document_json(s: DocumentSource)
    ensures
        is_document_json(anthropic::document_block(s), s),
{
    lemma_keys();
    match s {
        DocumentSource::Text { text } => {
            lemma_text_json(text@);
        },
        DocumentSource::Base64 { media_type, data } => {
            lemma_data_json(media_type@, data@);
            let src = anthropic::data_source(media_type@, data@);
            lemma_two("type"@, Tree::Str("image"@), "source"@, src);
            lemma_two("type"@, Tree::Str("document"@), "source"@, src);
        },
        DocumentSource::Url { url } => {
            lemma_url_json(url@);
            lemma_two("type"@, Tree::Str("document"@), "source"@, anthropic::url_source(url@));
        },
    }
}

/// Every block of the model stands in the request to Anthropic as it was: texts, calls with
/// their identifier, name and exactly their input, thoughts with their signature, redacted
/// thoughts, images and documents.
pub proof fn law_anthropic_keeps_what_the_model_did(b: AssistantContentBlock)
    ensures
        ({
            let t = anthropic::assistant_block(b);
            match b {
                AssistantContentBlock::Text(x) => is_text_json(t, x.text@),
                AssistantContentBlock::ToolUse(x) => has_text(t, "type"@, "tool_use"@) && has_text(
                    t,
                    "id"@,
                    x.id@,
                ) && has_text(t, "name"@, x.name@) && t.get("input"@) == Some(x.input@),
                AssistantContentBlock::Thinking(x) => has_text(t, "type"@, "thinking"@) && has_text(
                    t,
                    "thinking"@,
                    x.thinking@,
                ) && has_text(t, "signature"@, x.signature@),
                AssistantContentBlock::RedactedThinking(x) => has_text(
                    t,
                    "type"@,
                    "redacted_thinking"@,
                ) && has_text(t, "data"@, x.data@),
                AssistantContentBlock::Image(x) => is_image_json(t, x.source),
                AssistantContentBlock::Document(x) => is_document_json(t, x.source),
            }
        }),
{
    lemma_keys();
    match b {
        AssistantContentBlock::Text(x) => lemma_text_json(x.text@),
        AssistantContentBlock::ToolUse(x) => lemma_four(
            "type"@,
            Tree::Str("tool_use"@),
            "id"@,
            Tree::Str(x.id@),
            "name"@,
            Tree::Str(x.name@),
            "input"@,
            x.input@,
        ),
        AssistantContentBlock::Thinking(x) => lemma_three(
            "type"@,
            Tree::Str("thinking"@),
            "thinking"@,
            Tree::Str(x.thinking@),
            "signature"@,
            Tree::Str(x.signature@),
        ),
        AssistantContentBlock::RedactedThinking(x) => lemma_two(
            "type"@,
            Tree::Str("redacted_thinking"@),
            "data"@,
            Tree::Str(x.data@),
        ),
        AssistantContentBlock::Image(x) => lemma_image_json(x.source),
        AssistantContentBlock::Document(x) => lemma_document_json(x.source),
    }
}

/// Every block of a user stands in the request to Anthropic as it was; the result of a call
/// under the identifier of its call, with all of its texts and images in order.
pub proof fn law_anthropic_keeps_what_the_user_said(b: UserContentBlock)
    ensures
        ({
            let t = anthropic::user_block(b);
            match b {
                UserContentBlock::Text(x) => is_text_json(t, x.text@),
                UserContentBlock::Image(x) => is_image_json(t, x.source),
                UserContentBlock::Document(x) => is_document_json(t, x.source),
                UserContentBlock::ToolResult(r) => has_text(t, "type"@, "tool_result"@) && has_text(
                    t,
                    "tool_use_id"@,
                    r.tool_use_id@,
                ) && t.get("content"@) is Some && t.get("content"@)->0 is Arr && is_result_json(
                    t.get("content"@)->0->Arr_0,
                    r.content,
                ),
            }
        }),
{
    lemma_keys();
    match b {
        UserContentBlock::Text(x) => lemma_text_json(x.text@),
        UserContentBlock::Image(x) => lemma_image_json(x.source),
        UserContentBlock::Document(x) => lemma_document_json(x.source),
        UserContentBlock::ToolResult(r) => {
            lemma_three(
                "type"@,
                Tree::Str("tool_result"@),
                "tool_use_id"@,
                Tree::Str(r.tool_use_id@),
                "content"@,
                anthropic::result_content(r.content),
            );
            match r.content {
                ToolResultContent::Text(t) => lemma_text_json(t@),
                ToolResultContent::Blocks(v) => {
                    let ts = anthropic::result_content(r.content)->Arr_0;
                    assert forall|k: int| 0 <= k < v@.len() implies is_result_block_json(
                        ts[k],
                        #[trigger] v@[k],
                    ) by {
                        match v@[k] {
                            ToolResultContentBlock::Text { text } => lemma_text_json(text@),
                            ToolResultContentBlock::Image { source } => lemma_image_json(source),
                        }
                    }
                },
            }
        },
    }
}

/// A block of a result in JSON.
pub open spec fn is_result_block_json(t: Tree, b: ToolResultContentBlock) -> bool {
    match b {
        ToolResultContentBlock::Text { text } => is_text_json(t, text@),
        ToolResultContentBlock::Image { source } => is_image_json(t, source),
    }
}

/// A result in JSON: its text, or its blocks in order.
pub open spec fn is_result_json(ts: Seq<Tree>, c: ToolResultContent) -> bool {
    match c {
        ToolResultContent::Text(t) => ts.len() == 1 && is_text_json(ts[0], t@),
        ToolResultContent::Blocks(v) => ts.len() == v@.len() && forall|k: int|
            0 <= k < v@.len() ==> is_result_block_json(ts[k], #[trigger] v@[k]),
    }
}

/// Every turn is one message of the request to Anthropic, in its place and under its role,
/// with one block for each of its own; but for a cache mark, the blocks are what the laws on
/// blocks say.
pub proof fn law_anthropic_keeps_turns(v: Seq<StorageMessage>, caches: bool, i: int)
    requires
        0 <= i < v.len(),
    ensures
        anthropic::body_messages(v, caches).len() == v.len(),
        ({
            let m = anthropic::body_messages(v, caches)[i];
            &&& v[i].role is User ==> has_text(m, "role"@, "user"@)
            &&& v[i].role is Assistant ==> has_text(m, "role"@, "assistant"@)
            &&& m.get("content"@) is Some && m.get("content"@)->0 is Arr
            &&& ({
                let c = m.get("content"@)->0->Arr_0;
                match v[i].content {
                    MessageContent::Text(t) => c.len() == 1 && is_text_json(c[0], t@),
                    MessageContent::UserBlocks(b) => c.len() == b@.len() && forall|k: int|
                        0 <= k < b@.len() ==> same_but_mark(
                            c[k],
                            anthropic::user_block(#[trigger] b@[k]),
                        ),
                    MessageContent::AssistantBlocks(b) => c.len() == b@.len() && forall|k: int|
                        0 <= k < b@.len() ==> same_but_mark(
                            c[k],
                            anthropic::assistant_block(#[trigger] b@[k]),
                        ),
                }
            })
        }),
{
    lemma_keys();
    let mark = anthropic::is_marked(caches, i, v.len() as int);
    let content = anthropic::turn_content(v[i], mark);
    lemma_two(
        "role"@,
        Tree::Str(chat_format::role_name(v[i].role)),
        "content"@,
        Tree::Arr(content),
    );
    match v[i].content {
        MessageContent::Text(t) => lemma_text_json(t@),
        MessageContent::UserBlocks(b) => {
            let ts = b@.map_values(|x: UserContentBlock| anthropic::user_block(x));
            lemma_marked_is_same(ts, mark);
            assert forall|k: int| 0 <= k < b@.len() implies same_but_mark(
                content[k],
                anthropic::user_block(#[trigger] b@[k]),
            ) by {
                assert(ts[k] == anthropic::user_block(b@[k]));
            }
        },
        MessageContent::AssistantBlocks(b) => {
            let ts = b@.map_values(|x: AssistantContentBlock| anthropic::assistant_block(x));
            lemma_marked_is_same(ts, mark);
            assert forall|k: int| 0 <= k < b@.len() implies same_but_mark(
                content[k],
                anthropic::assistant_block(#[trigger] b@[k]),
            ) by {
                assert(ts[k] == anthropic::assistant_block(b@[k]));
            }
        },
    }
}

/// The same members, but for a cache mark.
pub open spec fn same_but_mark(t: Tree, u: Tree) -> bool {
    u is Obj ==> t is Obj && forall|key: Seq<char>|
        key != "cache_control"@ ==> (#[trigger] t.get(key)) == u.get(key)
}

proof fn lemma_marked_is_same(ts: Seq<Tree>, mark: bool)
    ensures
        anthropic::marked(ts, mark).len() == ts.len(),
        forall|k: int|
            0 <= k < ts.len() ==> same_but_mark(
                anthropic::marked(ts, mark)[k],
                #[trigger] ts[k],
            ),
{
    if mark && ts.len() > 0 {
        let out = anthropic::marked(ts, mark);
        let last = ts.last();
        if last is Obj {
            assert forall|key: Seq<char>| key != "cache_control"@ implies (#[trigger] last.put(
                "cache_control"@,
                anthropic::breakpoint(),
            ).get(key)) == last.get(key) by {
                json::law_put_then_get(last, "cache_control"@, anthropic::breakpoint(), key);
            }
            json::law_put_then_get(last, "cache_control"@, anthropic::breakpoint(), Seq::empty());
        }
        assert forall|k: int| 0 <= k < ts.len() implies same_but_mark(out[k], #[trigger] ts[k]) by {
            if k < ts.len() - 1 {
                assert(out[k] == ts[k]);
            }
        }
    }
}

// ---------------------------------------------------------------------------
// OpenAI and MiniMax
// ---------------------------------------------------------------------------

/// A call in JSON, as chat endpoints take it: its identifier, its name, and its input
/// printed.
pub open spec fn is_chat_call(t: Tree, id: Seq<char>, name: Seq<char>, input: Tree) -> bool {
    &&& has_text(t, "id"@, id)
    &&& has_text(t, "type"@, "function"@)
    &&& t.get("function"@) is Some
    &&& has_text(t.get("function"@)->0, "name"@, name)
    &&& has_text(t.get("function"@)->0, "arguments"@, json::printed(input))
}

/// The number of tool uses among the first `n` blocks.
pub open spec fn uses_before(v: Seq<AssistantContentBlock>, n: int) -> int
    decreases n,
{
    if n <= 0 {
        0
    } else {
        uses_before(v, n - 1) + (if v[n - 1] is ToolUse {
            1int
        } else {
            0
        })
    }
}

proof fn lemma_uses_before(v: Seq<AssistantContentBlock>, n: int)
    requires
        0 <= n < v.len(),
    ensures
        uses_before(v.drop_last(), n) == uses_before(v, n),
        0 <= uses_before(v, n),
    decreases n,
{
    if n > 0 {
        lemma_uses_before(v, n - 1);
    }
}

/// The calls stand for the tool uses of a turn, one for each and in order.
pub open spec fn are_calls_of(ts: Seq<Tree>, v: Seq<AssistantContentBlock>) -> bool {
    &&& ts.len() == uses_before(v, v.len() as int)
    &&& forall|k: int|
        0 <= k < v.len() && (#[trigger] v[k]) is ToolUse ==> 0 <= uses_before(v, k) < ts.len()
            && is_chat_call(
            ts[uses_before(v, k)],
            v[k]->ToolUse_0.id@,
            v[k]->ToolUse_0.name@,
            v[k]->ToolUse_0.input@,
        )
}

proof fn lemma_chat_call(id: Tree, name: Tree, arguments: Tree)
    ensures
        ({
            let t = json::empty_obj().put("id"@, id).put("type"@, Tree::Str("function"@)).put(
                "function"@,
                json::empty_obj().put("name"@, name).put("arguments"@, arguments),
            );
            &&& t.get("id"@) == Some(id)
            &&& has_text(t, "type"@, "function"@)
            &&& t.get("function"@) is Some
            &&& (t.get("function"@)->0).get("name"@) == Some(name)
            &&& (t.get("function"@)->0).get("arguments"@) == Some(arguments)
        }),
{
    lemma_keys();
    let f = json::empty_obj().put("name"@, name).put("arguments"@, arguments);
    lemma_two("name"@, name, "arguments"@, arguments);
    lemma_three("id"@, id, "type"@, Tree::Str("function"@), "function"@, f);
}

/// MiniMax is sent every call of a turn, in order, with its identifier, its name and its
/// input.
pub proof fn law_minimax_keeps_calls(v: Seq<AssistantContentBlock>)
    ensures
        are_calls_of(minimax::turn_calls(v), v),
    decreases v.len(),
{
    if v.len() > 0 {
        let p = v.drop_last();
        law_minimax_keeps_calls(p);
        lemma_uses_before(v, p.len() as int);
        let all = minimax::turn_calls(v);
        if let AssistantContentBlock::ToolUse(t) = v.last() {
            lemma_chat_call(
                Tree::Str(t.id@),
                Tree::Str(t.name@),
                Tree::Str(json::printed(t.input@)),
            );
        }
        assert forall|k: int| 0 <= k < v.len() && (#[trigger] v[k]) is ToolUse implies 0
            <= uses_before(v, k) < all.len() && is_chat_call(
            all[uses_before(v, k)],
            v[k]->ToolUse_0.id@,
            v[k]->ToolUse_0.name@,
            v[k]->ToolUse_0.input@,
        ) by {
            lemma_uses_before(v, k);
            if k < p.len() {
                assert(p[k] == v[k]);
                assert(all[uses_before(v, k)] == minimax::turn_calls(p)[uses_before(p, k)]);
            }
        }
    }
}

/// The message of an assistant turn holds its role, its text, its calls where it has any,
/// and its reasoning where it has any.
pub proof fn law_minimax_messages_hold_the_turn(role: Seq<char>, v: Seq<AssistantContentBlock>)
    ensures
        ({
            let m = minimax::assistant_message(role, v);
            &&& has_text(m, "role"@, role)
            &&& has_text(m, "content"@, minimax::turn_text(v))
            &&& uses_before(v, v.len() as int) > 0 ==> m.get("tool_calls"@) == Some(
                Tree::Arr(minimax::turn_calls(v)),
            )
            &&& minimax::turn_details(v).len() > 0 ==> m.get("reasoning_details"@) == Some(
                Tree::Arr(minimax::turn_details(v)),
            )
        }),
{
    lemma_keys();
    law_minimax_keeps_calls(v);
    let text = Tree::Str(minimax::turn_text(v));
    lemma_two("role"@, Tree::Str(role), "content"@, text);
    let base = chat_format::message(role, text);
    let calls = Tree::Arr(minimax::turn_calls(v));
    json::law_put_then_get(base, "tool_calls"@, calls, "role"@);
    json::law_put_then_get(base, "tool_calls"@, calls, "content"@);
    let with_calls = if minimax::turn_calls(v).len() > 0 {
        base.put("tool_calls"@, calls)
    } else {
        base
    };
    let details = Tree::Arr(minimax::turn_details(v));
    json::law_put_then_get(with_calls, "reasoning_details"@, details, "role"@);
    json::law_put_then_get(with_calls, "reasoning_details"@, details, "content"@);
    json::law_put_then_get(with_calls, "reasoning_details"@, details, "tool_calls"@);
}

/// The text of a turn holds every text block of it, and what stands before and after a
/// block stays before and after it.
pub proof fn law_minimax_text_grows_by_blocks(
    v: Seq<AssistantContentBlock>,
    b: AssistantContentBlock,
)
    ensures
        ({
            let before = minimax::turn_text(v);
            let after = minimax::turn_text(v.push(b));
            &&& b is Text && before.len() == 0 ==> after == b->Text_0.text@
            &&& b is Text && before.len() > 0 ==> after == before + seq!['\n'] + b->Text_0.text@
            &&& !(b is Text) ==> after == before
        }),
{
    assert(v.push(b).drop_last() =~= v);
    reveal_strlit("\n");
    assert("\n"@ =~= seq!['\n']);
    if b is Text && minimax::turn_text(v).len() == 0 {
        assert(minimax::turn_text(v) + b->Text_0.text@ =~= b->Text_0.text@);
    }
}

/// Thoughts are sent back to MiniMax, each as a detail of the reasoning.
pub proof fn law_minimax_thoughts_are_sent_back(
    v: Seq<AssistantContentBlock>,
    b: AssistantContentBlock,
)
    requires
        b is Thinking,
    ensures
        minimax::turn_details(v.push(b)).len() == minimax::turn_details(v).len() + 1,
        minimax::turn_details(v.push(b)).drop_last() == minimax::turn_details(v),
        has_text(minimax::turn_details(v.push(b)).last(), "text"@, b->Thinking_0.thinking@),
{
    assert(v.push(b).drop_last() =~= v);
    assert(minimax::turn_details(v.push(b)).drop_last() =~= minimax::turn_details(v));
    json::law_put_then_get(
        json::empty_obj(),
        "text"@,
        Tree::Str(b->Thinking_0.thinking@),
        "text"@,
    );
}

/// An assistant part is a tool use exactly where its block is one, and then holds its
/// identifier, its name and its input; a text part holds the text.
proof fn lemma_openai_part(b: AssistantContentBlock)
    ensures
        openai::assistant_part(b) matches Some(p) ==> {
            &&& openai::is_tool_use(p) == (b is ToolUse)
            &&& b is ToolUse ==> has_text(p, "id"@, b->ToolUse_0.id@) && has_text(
                p,
                "name"@,
                b->ToolUse_0.name@,
            ) && p.get("input"@) == Some(b->ToolUse_0.input@)
            &&& b is Text ==> is_text_json(p, b->Text_0.text@)
        },
        b is ToolUse || b is Text ==> openai::assistant_part(b) is Some,
        b is Thinking || b is RedactedThinking ==> openai::assistant_part(b) is None,
{
    lemma_keys();
    match b {
        AssistantContentBlock::Text(t) => lemma_text_json(t.text@),
        AssistantContentBlock::ToolUse(t) => lemma_four(
            "type"@,
            Tree::Str("tool_use"@),
            "id"@,
            Tree::Str(t.id@),
            "name"@,
            Tree::Str(t.name@),
            "input"@,
            t.input@,
        ),
        AssistantContentBlock::Image(i) => {
            match i.source {
                ImageSource::Base64 { media_type, data } => lemma_image_part(
                    chat_format::data_url(media_type@, data@),
                ),
                ImageSource::Url { url } => lemma_image_part(url@),
            }
        },
        AssistantContentBlock::Document(d) => {
            match d.source {
                DocumentSource::Text { text } => lemma_text_json(text@),
                DocumentSource::Base64 { media_type, data } => lemma_image_part(
                    chat_format::data_url(media_type@, data@),
                ),
                DocumentSource::Url { url } => lemma_image_part(url@),
            }
        },
        _ => {},
    }
}

/// An image part holds its address.
proof fn lemma_image_part(url: Seq<char>)
    ensures
        has_text(chat_format::image_part(url), "type"@, "image_url"@),
        chat_format::image_part(url).get("image_url"@) is Some,
        has_text(chat_format::image_part(url).get("image_url"@)->0, "url"@, url),
{
    lemma_keys();
    let inner = json::empty_obj().put("url"@, Tree::Str(url));
    json::law_put_then_get(json::empty_obj(), "url"@, Tree::Str(url), "url"@);
    lemma_two("type"@, Tree::Str("image_url"@), "image_url"@, inner);
}

/// OpenAI is sent every call of a turn, in order, with its identifier, its name and its
/// input.
pub proof fn law_openai_keeps_calls(v: Seq<AssistantContentBlock>)
    ensures
        are_calls_of(openai::part_calls(openai::assistant_parts(v)), v),
    decreases v.len(),
{
    if v.len() > 0 {
        let p = v.drop_last();
        law_openai_keeps_calls(p);
        lemma_uses_before(v, p.len() as int);
        let parts = openai::assistant_parts(v);
        let few = openai::assistant_parts(p);
        let all = openai::part_calls(parts);
        lemma_openai_part(v.last());
        if openai::assistant_part(v.last()) is Some {
            assert(parts.drop_last() =~= few);
        }
        if let AssistantContentBlock::ToolUse(t) = v.last() {
            lemma_chat_call(
                Tree::Str(t.id@),
                Tree::Str(t.name@),
                Tree::Str(json::printed(t.input@)),
            );
        }
        assert forall|k: int| 0 <= k < v.len() && (#[trigger] v[k]) is ToolUse implies 0
            <= uses_before(v, k) < all.len() && is_chat_call(
            all[uses_before(v, k)],
            v[k]->ToolUse_0.id@,
            v[k]->ToolUse_0.name@,
            v[k]->ToolUse_0.input@,
        ) by {
            lemma_uses_before(v, k);
            if k < p.len() {
                assert(p[k] == v[k]);
                assert(all[uses_before(v, k)] == openai::part_calls(few)[uses_before(p, k)]);
            }
        }
    }
}

/// The texts of a turn that OpenAI is sent: those of its text blocks and of its documents
/// that are text, in order. Thoughts are not among them.
pub open spec fn turn_texts(v: Seq<AssistantContentBlock>) -> Seq<Seq<char>>
    decreases v.len(),
{
    if v.len() == 0 {
        Seq::empty()
    } else {
        let rest = turn_texts(v.drop_last());
        match v.last() {
            AssistantContentBlock::Text(t) => rest.push(t.text@),
            AssistantContentBlock::Document(d) => match d.source {
                DocumentSource::Text { text } => rest.push(text@),
                _ => rest,
            },
            _ => rest,
        }
    }
}

proof fn lemma_openai_texts(v: Seq<AssistantContentBlock>)
    ensures
        openai::part_texts(openai::assistant_parts(v)) == turn_texts(v),
    decreases v.len(),
{
    if v.len() > 0 {
        lemma_openai_texts(v.drop_last());
        let parts = openai::assistant_parts(v);
        let few = openai::assistant_parts(v.drop_last());
        lemma_openai_part(v.last());
        lemma_keys();
        if openai::assistant_part(v.last()) is Some {
            assert(parts.drop_last() =~= few);
        }
        match v.last() {
            AssistantContentBlock::Document(d) => match d.source {
                DocumentSource::Text { text } => lemma_text_json(text@),
                DocumentSource::Base64 { media_type, data } => lemma_image_part(
                    chat_format::data_url(media_type@, data@),
                ),
                DocumentSource::Url { url } => lemma_image_part(url@),
            },
            AssistantContentBlock::Image(i) => match i.source {
                ImageSource::Base64 { media_type, data } => lemma_image_part(
                    chat_format::data_url(media_type@, data@),
                ),
                ImageSource::Url { url } => lemma_image_part(url@),
            },
            _ => {},
        }
    }
}

/// The message of an assistant turn that OpenAI is sent: its role, its calls where it has
/// any, and its texts, each on a line of its own; no content at all where a turn is nothing
/// but calls.
pub proof fn law_openai_messages_hold_the_turn(v: Seq<AssistantContentBlock>)
    ensures
        ({
            let m = openai::sent_message(
                chat_format::message("assistant"@, Tree::Arr(openai::assistant_parts(v))),
            );
            let calls = uses_before(v, v.len() as int);
            &&& has_text(m, "role"@, "assistant"@)
            &&& calls > 0 ==> m.get("tool_calls"@) is Some && m.get("tool_calls"@)->0 is Arr
                && are_calls_of(m.get("tool_calls"@)->0->Arr_0, v)
            &&& calls == 0 ==> m.get("tool_calls"@) is None
            &&& turn_texts(v).len() > 0 ==> has_text(
                m,
                "content"@,
                text::joined(turn_texts(v), "\n"@),
            )
        }),
{
    lemma_keys();
    law_openai_keeps_calls(v);
    lemma_openai_texts(v);
    let parts = openai::assistant_parts(v);
    let raw = chat_format::message("assistant"@, Tree::Arr(parts));
    lemma_two("role"@, Tree::Str("assistant"@), "content"@, Tree::Arr(parts));
    let joined = Tree::Str(text::joined(openai::part_texts(parts), "\n"@));
    let calls = Tree::Arr(openai::part_calls(parts));
    json::law_put_then_get(raw, "content"@, joined, "role"@);
    json::law_put_then_get(raw, "content"@, joined, "tool_calls"@);
    json::law_put_then_get(
        json::empty_obj(),
        "role"@,
        Tree::Str("assistant"@),
        "tool_calls"@,
    );
    json::law_put_then_get(
        json::empty_obj().put("role"@, Tree::Str("assistant"@)),
        "content"@,
        Tree::Arr(parts),
        "tool_calls"@,
    );
    let c = raw.put("tool_calls"@, calls);
    json::law_put_then_get(raw, "tool_calls"@, calls, "role"@);
    json::law_put_then_get(c, "content"@, joined, "role"@);
    json::law_put_then_get(c, "content"@, joined, "tool_calls"@);
    json::law_put_then_get(c, "content"@, Tree::Null, "role"@);
    json::law_put_then_get(c, "content"@, Tree::Null, "tool_calls"@);
    if turn_texts(v).len() > 0 {
        lemma_some_text(parts);
    }
}

proof fn lemma_some_text(parts: Seq<Tree>)
    requires
        openai::part_texts(parts).len() > 0,
    ensures
        !openai::only_tool_uses(parts),
    decreases parts.len(),
{
    lemma_keys();
    let p = parts.last();
    if p.get("type"@) == Some(Tree::Str("text"@)) {
        assert("text"@ != "tool_use"@);
        assert(!openai::is_tool_use(parts[parts.len() - 1]));
    } else {
        lemma_some_text(parts.drop_last());
        let i = choose|i: int|
            0 <= i < parts.drop_last().len() && !openai::is_tool_use(
                #[trigger] parts.drop_last()[i],
            );
        assert(!openai::is_tool_use(parts[i]));
    }
}

/// The number of results of calls among the first `n` blocks of a user.
pub open spec fn results_before(v: Seq<UserContentBlock>, n: int) -> int
    decreases n,
{
    if n <= 0 {
        0
    } else {
        results_before(v, n - 1) + (if v[n - 1] is ToolResult {
            1int
        } else {
            0
        })
    }
}

proof fn lemma_results_before(v: Seq<UserContentBlock>, n: int)
    requires
        0 <= n < v.len(),
    ensures
        results_before(v.drop_last(), n) == results_before(v, n),
        0 <= results_before(v, n),
    decreases n,
{
    if n > 0 {
        lemma_results_before(v, n - 1);
    }
}

/// Every result of a call becomes a message of its own, in order, under the identifier of
/// its call and with its text.
pub proof fn law_results_become_messages(v: Seq<UserContentBlock>)
    ensures
        chat_format::tool_messages(v).len() == results_before(v, v.len() as int),
        forall|k: int|
            0 <= k < v.len() && (#[trigger] v[k]) is ToolResult ==> 0 <= results_before(v, k)
                < chat_format::tool_messages(v).len() && is_result_message(
                chat_format::tool_messages(v)[results_before(v, k)],
                v[k],
            ),
    decreases v.len(),
{
    lemma_keys();
    if v.len() > 0 {
        let p = v.drop_last();
        law_results_become_messages(p);
        lemma_results_before(v, p.len() as int);
        let all = chat_format::tool_messages(v);
        if let UserContentBlock::ToolResult(r) = v.last() {
            lemma_three(
                "role"@,
                Tree::Str("tool"@),
                "tool_call_id"@,
                Tree::Str(r.tool_use_id@),
                "content"@,
                Tree::Str(chat_format::result_text(r.content)),
            );
        }
        assert forall|k: int| 0 <= k < v.len() && (#[trigger] v[k]) is ToolResult implies 0
            <= results_before(v, k) < all.len() && is_result_message(
            all[results_before(v, k)],
            v[k],
        ) by {
            lemma_results_before(v, k);
            if k < p.len() {
                assert(p[k] == v[k]);
                assert(all[results_before(v, k)] == chat_format::tool_messages(
                    p,
                )[results_before(p, k)]);
            }
        }
    }
}

/// A message of the result of a call.
pub open spec fn is_result_message(t: Tree, b: UserContentBlock) -> bool {
    &&& has_text(t, "role"@, "tool"@)
    &&& has_text(t, "tool_call_id"@, b->ToolResult_0.tool_use_id@)
    &&& match b->ToolResult_0.content {
        ToolResultContent::Text(s) => has_text(t, "content"@, s@),
        ToolResultContent::Blocks(v) => v@.len() == 1 && v@[0] is Text ==> has_text(
            t,
            "content"@,
            text::joined(seq![v@[0]->Text_text@], "\n"@),
        ),
    }
}

/// The number of blocks of a user that are parts of the message, among the first `n`.
pub open spec fn parts_before(v: Seq<UserContentBlock>, any: bool, n: int) -> int
    decreases n,
{
    if n <= 0 {
        0
    } else {
        parts_before(v, any, n - 1) + (if is_user_part(v[n - 1], any) {
            1int
        } else {
            0
        })
    }
}

/// A block of a user that is a part of the message: a text, an image, a text document, and
/// with `any` any document.
pub open spec fn is_user_part(b: UserContentBlock, any: bool) -> bool {
    match b {
        UserContentBlock::Text(_) => true,
        UserContentBlock::Image(_) => true,
        UserContentBlock::Document(d) => any || d.source is Text,
        UserContentBlock::ToolResult(_) => false,
    }
}

proof fn lemma_parts_before(v: Seq<UserContentBlock>, any: bool, n: int)
    requires
        0 <= n < v.len(),
    ensures
        parts_before(v.drop_last(), any, n) == parts_before(v, any, n),
        0 <= parts_before(v, any, n),
    decreases n,
{
    if n > 0 {
        lemma_parts_before(v, any, n - 1);
    }
}

/// An image part of a chat message.
pub open spec fn is_chat_image(t: Tree, url: Seq<char>) -> bool {
    &&& has_text(t, "type"@, "image_url"@)
    &&& t.get("image_url"@) is Some
    &&& has_text(t.get("image_url"@)->0, "url"@, url)
}

/// The part is what a block of a user said: a text, or an image by its address or with its
/// data in it.
pub open spec fn is_chat_part(t: Tree, b: UserContentBlock) -> bool {
    match b {
        UserContentBlock::Text(x) => is_text_json(t, x.text@),
        UserContentBlock::Image(i) => match i.source {
            ImageSource::Base64 { media_type, data } => is_chat_image(
                t,
                "data:"@ + media_type@ + ";base64,"@ + data@,
            ),
            ImageSource::Url { url } => is_chat_image(t, url@),
        },
        UserContentBlock::Document(d) => match d.source {
            DocumentSource::Text { text } => is_text_json(t, text@),
            DocumentSource::Base64 { media_type, data } => is_chat_image(
                t,
                "data:"@ + media_type@ + ";base64,"@ + data@,
            ),
            DocumentSource::Url { url } => is_chat_image(t, url@),
        },
        UserContentBlock::ToolResult(_) => false,
    }
}

proof fn lemma_chat_part(b: UserContentBlock, any: bool)
    ensures
        chat_format::user_part(b, any) is Some <==> is_user_part(b, any),
        chat_format::user_part(b, any) matches Some(p) ==> is_chat_part(p, b),
{
    match b {
        UserContentBlock::Text(x) => lemma_text_json(x.text@),
        UserContentBlock::Image(i) => match i.source {
            ImageSource::Base64 { media_type, data } => lemma_image_part(
                chat_format::data_url(media_type@, data@),
            ),
            ImageSource::Url { url } => lemma_image_part(url@),
        },
        UserContentBlock::Document(d) => match d.source {
            DocumentSource::Text { text } => lemma_text_json(text@),
            DocumentSource::Base64 { media_type, data } => lemma_image_part(
                chat_format::data_url(media_type@, data@),
            ),
            DocumentSource::Url { url } => lemma_image_part(url@),
        },
        _ => {},
    }
}

/// Every text, image and document of a user is a part of the message, in order and as it
/// was.
pub proof fn law_user_blocks_become_parts(v: Seq<UserContentBlock>, any: bool)
    ensures
        chat_format::user_parts(v, any).len() == parts_before(v, any, v.len() as int),
        forall|k: int|
            0 <= k < v.len() && is_user_part(#[trigger] v[k], any) ==> 0 <= parts_before(v, any, k)
                < chat_format::user_parts(v, any).len() && is_chat_part(
                chat_format::user_parts(v, any)[parts_before(v, any, k)],
                v[k],
            ),
    decreases v.len(),
{
    if v.len() > 0 {
        let p = v.drop_last();
        law_user_blocks_become_parts(p, any);
        lemma_parts_before(v, any, p.len() as int);
        lemma_chat_part(v.last(), any);
        let all = chat_format::user_parts(v, any);
        assert forall|k: int| 0 <= k < v.len() && is_user_part(#[trigger] v[k], any) implies 0
            <= parts_before(v, any, k) < all.len() && is_chat_part(
            all[parts_before(v, any, k)],
            v[k],
        ) by {
            lemma_parts_before(v, any, k);
            if k < p.len() {
                assert(p[k] == v[k]);
                assert(all[parts_before(v, any, k)] == chat_format::user_parts(
                    p,
                    any,
                )[parts_before(p, any, k)]);
            }
        }
    }
}

/// A user turn with results or with more than one block becomes the messages of its results
/// and, where it has parts, one message of them; a single text stands by itself.
pub proof fn law_user_turns_become_messages(
    role: Seq<char>,
    v: Seq<UserContentBlock>,
    any: bool,
    results_first: bool,
)
    ensures
        ({
            let ms = chat_format::user_messages(role, v, any, results_first);
            let results = chat_format::tool_messages(v);
            let parts = chat_format::user_parts(v, any);
            if v.len() == 1 && v[0] is Text {
                ms.len() == 1 && has_text(ms[0], "role"@, role) && has_text(
                    ms[0],
                    "content"@,
                    v[0]->Text_0.text@,
                )
            } else {
                let at = if results_first {
                    results.len() as int
                } else {
                    0
                };
                let start = if results_first {
                    0
                } else {
                    ms.len() - results.len()
                };
                &&& ms.len() == results.len() + (if parts.len() > 0 {
                    1int
                } else {
                    0
                })
                &&& ms.subrange(start, start + results.len()) == results
                &&& parts.len() > 0 ==> has_text(ms[at], "role"@, role) && ms[at].get("content"@)
                    == Some(Tree::Arr(parts))
            }
        }),
{
    lemma_keys();
    let ms = chat_format::user_messages(role, v, any, results_first);
    let results = chat_format::tool_messages(v);
    let parts = chat_format::user_parts(v, any);
    lemma_two("role"@, Tree::Str(role), "content"@, Tree::Arr(parts));
    if v.len() == 1 && v[0] is Text {
        lemma_two("role"@, Tree::Str(role), "content"@, Tree::Str(v[0]->Text_0.text@));
    } else {
        let start = if results_first {
            0
        } else {
            ms.len() - results.len()
        };
        assert(ms.subrange(start, start + results.len()) =~= results);
    }
}

/// The messages of a history are those of its turns, one turn after the other.
pub proof fn law_histories_keep_turns(v: Seq<StorageMessage>, m: StorageMessage)
    ensures
        openai::raw_history(Seq::empty()) == Seq::<Tree>::empty(),
        minimax::history(Seq::empty()) == Seq::<Tree>::empty(),
        openai::raw_history(v.push(m)) == openai::raw_history(v) + openai::raw_messages(m),
        minimax::history(v.push(m)) == minimax::history(v) + minimax::turn_messages(m),
        m.content is Text ==> openai::raw_messages(m).len() == 1 && has_text(
            openai::raw_messages(m)[0],
            "content"@,
            m.content->Text_0@,
        ) && openai::raw_messages(m) == minimax::turn_messages(m),
        m.content is Text && m.role is User ==> has_text(
            openai::raw_messages(m)[0],
            "role"@,
            "user"@,
        ),
        m.content is Text && m.role is Assistant ==> has_text(
            openai::raw_messages(m)[0],
            "role"@,
            "assistant"@,
        ),
{
    lemma_keys();
    assert(v.push(m).drop_last() =~= v);
    if let MessageContent::Text(t) = m.content {
        lemma_two(
            "role"@,
            Tree::Str(chat_format::role_name(m.role)),
            "content"@,
            Tree::Str(t@),
        );
    }
}

// ---------------------------------------------------------------------------
// Tools
// ---------------------------------------------------------------------------

/// Every tool is offered to the model with its name, its description and its parameters,
/// in order: to chat endpoints and to Anthropic.
pub proof fn law_tools_are_offered(v: Seq<ToolDefinition>, k: int)
    requires
        0 <= k < v.len(),
    ensures
        ({
            let f = v[k].function;
            let chat = chat_format::tools_tree(v);
            let own = anthropic::tool_tree(v[k]);
            &&& chat is Arr && (chat->Arr_0).len() == v.len()
            &&& has_text(chat->Arr_0[k], "type"@, "function"@)
            &&& (chat->Arr_0[k]).get("function"@) is Some
            &&& ({
                let t = (chat->Arr_0[k]).get("function"@)->0;
                &&& has_text(t, "name"@, f.name@)
                &&& has_text(t, "description"@, f.description@)
                &&& t.get("parameters"@) == Some(f.parameters@)
            })
            &&& has_text(own, "name"@, f.name@)
            &&& has_text(own, "description"@, f.description@)
            &&& own.get("input_schema"@) == Some(f.parameters@)
        }),
{
    lemma_keys();
    let f = v[k].function;
    lemma_three(
        "name"@,
        Tree::Str(f.name@),
        "description"@,
        Tree::Str(f.description@),
        "parameters"@,
        f.parameters@,
    );
    lemma_three(
        "name"@,
        Tree::Str(f.name@),
        "description"@,
        Tree::Str(f.description@),
        "input_schema"@,
        f.parameters@,
    );
    let inner = json::empty_obj().put("name"@, Tree::Str(f.name@)).put(
        "description"@,
        Tree::Str(f.description@),
    ).put("parameters"@, f.parameters@);
    lemma_two("type"@, Tree::Str("function"@), "function"@, inner);
}

/// A tool that must be called is named in the request; the other choices are told by their
/// word.
pub proof fn law_choices_are_told(name: String)
    ensures
        ({
            let chat = chat_format::tool_choice_tree(Some(ToolChoice::Named(name)));
            let own = anthropic::choice_tree(Some(ToolChoice::Named(name)));
            &&& has_text(chat, "type"@, "function"@)
            &&& chat.get("function"@) is Some && has_text(
                chat.get("function"@)->0,
                "name"@,
                name@,
            )
            &&& has_text(own, "type"@, "tool"@)
            &&& has_text(own, "name"@, name@)
        }),
        chat_format::tool_choice_tree(Some(ToolChoice::Required)) == Tree::Str("required"@),
        chat_format::tool_choice_tree(Some(ToolChoice::NoTool)) == Tree::Str("none"@),
        chat_format::tool_choice_tree(Some(ToolChoice::Auto)) == Tree::Str("auto"@),
        has_text(anthropic::choice_tree(Some(ToolChoice::Required)), "type"@, "any"@),
        has_text(anthropic::choice_tree(Some(ToolChoice::NoTool)), "type"@, "none"@),
        has_text(anthropic::choice_tree(Some(ToolChoice::Auto)), "type"@, "auto"@),
{
    lemma_keys();
    let e = json::empty_obj();
    json::law_put_then_get(e, "name"@, Tree::Str(name@), "name"@);
    lemma_two(
        "type"@,
        Tree::Str("function"@),
        "function"@,
        e.put("name"@, Tree::Str(name@)),
    );
    lemma_two("type"@, Tree::Str("tool"@), "name"@, Tree::Str(name@));
    json::law_put_then_get(e, "type"@, Tree::Str("any"@), "type"@);
    json::law_put_then_get(e, "type"@, Tree::Str("none"@), "type"@);
    json::law_put_then_get(e, "type"@, Tree::Str("auto"@), "type"@);
}

// ---------------------------------------------------------------------------
// Results
// ---------------------------------------------------------------------------

/// The texts of the first `n` blocks of a result, one on a line.
pub open spec fn told_by(v: Seq<ToolResultContentBlock>, n: int) -> Seq<Seq<char>>
    decreases n,
{
    if n <= 0 {
        Seq::empty()
    } else {
        match v[n - 1] {
            ToolResultContentBlock::Text { text } => told_by(v, n - 1).push(text@),
            ToolResultContentBlock::Image { .. } => told_by(v, n - 1),
        }
    }
}

proof fn lemma_told_by(v: Seq<ToolResultContentBlock>, n: int)
    requires
        0 <= n < v.len(),
    ensures
        told_by(v.drop_last(), n) == told_by(v, n),
    decreases n,
{
    if n > 0 {
        lemma_told_by(v, n - 1);
    }
}

/// A result in blocks is told to Gemini by all of its texts, in order, one on a line.
pub proof fn law_gemini_results_tell_their_texts(c: ToolResultContent, v: Seq<ToolResultContentBlock>)
    requires
        c matches ToolResultContent::Blocks(b) && b@ == v,
    ensures
        gemini_format::result_text(c) == text::joined(told_by(v, v.len() as int), "\n"@),
{
    lemma_block_texts(v);
}

proof fn lemma_block_texts(v: Seq<ToolResultContentBlock>)
    ensures
        gemini_format::block_texts(v) == told_by(v, v.len() as int),
    decreases v.len(),
{
    if v.len() > 0 {
        lemma_block_texts(v.drop_last());
        lemma_told_by(v, v.len() - 1);
    }
}

/// A result in blocks is told to chat endpoints block by block, in order, one on a line; a
/// text block by its text.
pub proof fn law_chat_results_tell_their_texts(
    c: ToolResultContent,
    v: Seq<ToolResultContentBlock>,
    k: int,
    t: String,
)
    requires
        c matches ToolResultContent::Blocks(b) && b@ == v,
        0 <= k < v.len(),
        v[k] == (ToolResultContentBlock::Text { text: t }),
    ensures
        exists|lines: Seq<Seq<char>>|
            lines.len() == v.len() && lines[k] == t@ && chat_format::result_text(c)
                == #[trigger] text::joined(lines, "\n"@),
{
    let lines = v.map_values(|b: ToolResultContentBlock| chat_format::result_block_text(b));
    assert(lines[k] == t@);
    assert(chat_format::result_text(c) == text::joined(lines, "\n"@));
}

/// The details of reasoning that belong to texts and calls are sent back to MiniMax too.
pub proof fn law_minimax_details_are_sent_back(
    v: Seq<AssistantContentBlock>,
    b: AssistantContentBlock,
    d: Vec<ReasoningDetailParam>,
    k: int,
)
    requires
        b matches AssistantContentBlock::Text(t) && t.reasoning_details == Some(d) || (
        b matches AssistantContentBlock::ToolUse(t) && t.reasoning_details == Some(d)),
        0 <= k < d@.len(),
    ensures
        ({
            let before = minimax::turn_details(v);
            let after = minimax::turn_details(v.push(b));
            &&& after.len() == before.len() + d@.len()
            &&& after.take(before.len() as int) == before
            &&& has_text(after[before.len() + k], "text"@, d@[k].text@)
        }),
{
    assert(v.push(b).drop_last() =~= v);
    let before = minimax::turn_details(v);
    let after = minimax::turn_details(v.push(b));
    assert(after.take(before.len() as int) =~= before);
    json::law_put_then_get(json::empty_obj(), "text"@, Tree::Str(d@[k].text@), "text"@);
}

/// The type of an image that is sent to Gemini by its address is told by its ending.
pub proof fn law_image_types_are_told_by_ending(url: Seq<char>)
    ensures
        gemini_format::image_type(url + ".png"@) == "image/png"@,
        gemini_format::image_type(url + ".gif"@) == "image/gif"@,
        gemini_format::image_type(url + ".webp"@) == "image/webp"@,
        gemini_format::image_type(url + ".jpg"@) == "image/jpeg"@,
{
    reveal_strlit(".png");
    reveal_strlit(".gif");
    reveal_strlit(".webp");
    reveal_strlit(".jpg");
    let p = url + ".png"@;
    let g = url + ".gif"@;
    let w = url + ".webp"@;
    let j = url + ".jpg"@;
    assert(p.subrange(p.len() - 4, p.len() as int) =~= ".png"@);
    assert(g.subrange(g.len() - 4, g.len() as int) =~= ".gif"@);
    assert(w.subrange(w.len() - 5, w.len() as int) =~= ".webp"@);
    lemma_ending(g, ".png"@);
    lemma_ending(w, ".png"@);
    lemma_ending(w, ".gif"@);
    lemma_ending(j, ".png"@);
    lemma_ending(j, ".gif"@);
    lemma_ending(j, ".webp"@);
    assert(g.last() == 'f');
    assert(w.last() == 'p');
    assert(j.last() == 'g');
    assert(j[j.len() - 2] == 'p');
}

proof fn lemma_ending(s: Seq<char>, e: Seq<char>)
    requires
        e.len() > 1,
    ensures
        text::ends(s, e) ==> s.len() >= e.len() && s.last() == e.last() && s[s.len() - 2]
            == e[e.len() - 2],
{
    if text::ends(s, e) {
        let t = s.subrange(s.len() - e.len(), s.len() as int);
        assert(t == e);
        assert(t[e.len() - 1] == s[s.len() - 1]);
        assert(t[e.len() - 2] == s[s.len() - 2]);
    }
}

// ---------------------------------------------------------------------------
// Turns in chat requests
// ---------------------------------------------------------------------------

/// A turn of the model is one message of it, and a turn of the user the messages of its
/// blocks: to OpenAI the results first, to MiniMax last.
pub proof fn law_turns_become_messages(m: StorageMessage)
    ensures
        m.role is Assistant && m.content is AssistantBlocks ==> openai::raw_messages(m) == seq![
            chat_format::message(
                "assistant"@,
                Tree::Arr(openai::assistant_parts(m.content->AssistantBlocks_0@)),
            ),
        ] && minimax::turn_messages(m) == seq![
            minimax::assistant_message("assistant"@, m.content->AssistantBlocks_0@),
        ],
        m.role is User && m.content is UserBlocks ==> openai::raw_messages(m)
            == chat_format::user_messages("user"@, m.content->UserBlocks_0@, true, true)
            && minimax::turn_messages(m) == chat_format::user_messages(
            "user"@,
            m.content->UserBlocks_0@,
            false,
            false,
        ),
{
}

/// Every message of every turn is in the history.
proof fn lemma_in_history(v: Seq<StorageMessage>, i: int, k: int, n: int)
    requires
        0 <= i < v.len(),
    ensures
        0 <= k < openai::raw_messages(v[i]).len() ==> exists|j: int|
            0 <= j < openai::raw_history(v).len() && #[trigger] openai::raw_history(v)[j]
                == openai::raw_messages(v[i])[k],
        0 <= n < minimax::turn_messages(v[i]).len() ==> exists|j: int|
            0 <= j < minimax::history(v).len() && #[trigger] minimax::history(v)[j]
                == minimax::turn_messages(v[i])[n],
    decreases v.len(),
{
    let p = v.drop_last();
    let a = openai::raw_history(p);
    let b = minimax::history(p);
    if i < v.len() - 1 {
        lemma_in_history(p, i, k, n);
        if 0 <= k < openai::raw_messages(v[i]).len() {
            let j = choose|j: int|
                0 <= j < a.len() && #[trigger] a[j] == openai::raw_messages(v[i])[k];
            assert(openai::raw_history(v)[j] == a[j]);
        }
        if 0 <= n < minimax::turn_messages(v[i]).len() {
            let j = choose|j: int|
                0 <= j < b.len() && #[trigger] b[j] == minimax::turn_messages(v[i])[n];
            assert(minimax::history(v)[j] == b[j]);
        }
    } else {
        if 0 <= k < openai::raw_messages(v[i]).len() {
            assert(openai::raw_history(v)[a.len() + k] == openai::raw_messages(v[i])[k]);
        }
        if 0 <= n < minimax::turn_messages(v[i]).len() {
            assert(minimax::history(v)[b.len() + n] == minimax::turn_messages(v[i])[n]);
        }
    }
}

/// A message that makes the calls of a turn.
pub open spec fn makes_calls_of(m: Tree, v: Seq<AssistantContentBlock>) -> bool {
    &&& has_text(m, "role"@, "assistant"@)
    &&& m.get("tool_calls"@) is Some
    &&& m.get("tool_calls"@)->0 is Arr
    &&& are_calls_of(m.get("tool_calls"@)->0->Arr_0, v)
}

/// For every turn of the model with tool uses, a request to OpenAI and one to MiniMax hold a
/// message that makes exactly its calls: each with its identifier, its name and its input.
pub proof fn law_every_call_is_sent(r: ProviderRequest, shape: bool, i: int)
    requires
        0 <= i < r.messages@.len(),
        r.messages@[i].role is Assistant,
        r.messages@[i].content is AssistantBlocks,
        uses_before(
            r.messages@[i].content->AssistantBlocks_0@,
            r.messages@[i].content->AssistantBlocks_0@.len() as int,
        ) > 0,
    ensures
        exists|j: int|
            0 <= j < openai::body_messages(shape, r).len() && makes_calls_of(
                #[trigger] openai::body_messages(shape, r)[j],
                r.messages@[i].content->AssistantBlocks_0@,
            ),
        exists|j: int|
            0 <= j < minimax::body_messages(r).len() && makes_calls_of(
                #[trigger] minimax::body_messages(r)[j],
                r.messages@[i].content->AssistantBlocks_0@,
            ),
{
    let v = r.messages@;
    let b = v[i].content->AssistantBlocks_0@;
    law_turns_become_messages(v[i]);
    lemma_in_history(v, i, 0, 0);
    law_openai_messages_hold_the_turn(b);
    law_minimax_messages_hold_the_turn("assistant"@, b);
    law_minimax_keeps_calls(b);
    let raw = openai::raw_history(v);
    let j = choose|j: int| 0 <= j < raw.len() && #[trigger] raw[j] == openai::raw_messages(v[i])[0];
    let ms = openai::body_messages(shape, r);
    lemma_sent(shape, r, j);
    assert(makes_calls_of(ms[j + 1], b));
    let history = minimax::history(v);
    let k = choose|k: int|
        0 <= k < history.len() && #[trigger] history[k] == minimax::turn_messages(v[i])[0];
    let all = minimax::body_messages(r);
    let head = all.len() - history.len();
    assert(all[head + k] == history[k]);
    assert(makes_calls_of(all[head + k], b));
}

proof fn lemma_sent(shape: bool, r: ProviderRequest, j: int)
    requires
        0 <= j < openai::raw_history(r.messages@).len(),
    ensures
        j + 1 < openai::body_messages(shape, r).len(),
        openai::body_messages(shape, r)[j + 1] == openai::sent_message(
            openai::raw_history(r.messages@)[j],
        ),
{
    let raw = openai::raw_history(r.messages@);
    let first = chat_format::message(
        if shape {
            "developer"@
        } else {
            "system"@
        },
        Tree::Str(r.system_prompt@),
    );
    let all = openai::with_user(seq![first] + raw);
    assert(all[j + 1] == raw[j]);
}

/// For every result of a call in a turn of the user, a request to OpenAI and one to MiniMax
/// hold a message with it, under the identifier of the call.
pub proof fn law_every_result_is_sent(r: ProviderRequest, shape: bool, i: int, k: int)
    requires
        0 <= i < r.messages@.len(),
        r.messages@[i].role is User,
        r.messages@[i].content is UserBlocks,
        0 <= k < r.messages@[i].content->UserBlocks_0@.len(),
        r.messages@[i].content->UserBlocks_0@[k] is ToolResult,
    ensures
        exists|j: int|
            0 <= j < openai::body_messages(shape, r).len() && is_result_message(
                #[trigger] openai::body_messages(shape, r)[j],
                r.messages@[i].content->UserBlocks_0@[k],
            ),
        exists|j: int|
            0 <= j < minimax::body_messages(r).len() && is_result_message(
                #[trigger] minimax::body_messages(r)[j],
                r.messages@[i].content->UserBlocks_0@[k],
            ),
{
    let v = r.messages@;
    let b = v[i].content->UserBlocks_0@;
    law_turns_become_messages(v[i]);
    law_results_become_messages(b);
    let results = chat_format::tool_messages(b);
    let at = results_before(b, k);
    assert(is_result_message(results[at], b[k]));
    law_user_turns_become_messages("user"@, b, true, true);
    law_user_turns_become_messages("user"@, b, false, false);
    let first = openai::raw_messages(v[i]);
    let last = minimax::turn_messages(v[i]);
    let start = last.len() - results.len();
    assert(first.subrange(0, results.len() as int)[at] == first[at]);
    assert(last.subrange(start, start + results.len())[at] == last[start + at]);
    lemma_in_history(v, i, at, start + at);
    let raw = openai::raw_history(v);
    let j = choose|j: int| 0 <= j < raw.len() && #[trigger] raw[j] == first[at];
    lemma_sent(shape, r, j);
    let ms = openai::body_messages(shape, r);
    reveal_strlit("tool");
    reveal_strlit("assistant");
    assert("tool"@.len() == 4);
    assert("assistant"@.len() == 9);
    assert(ms[j + 1] == raw[j]);
    assert(is_result_message(ms[j + 1], b[k]));
    let history = minimax::history(v);
    let n = choose|n: int| 0 <= n < history.len() && #[trigger] history[n] == last[start + at];
    let all = minimax::body_messages(r);
    let head = all.len() - history.len();
    assert(all[head + n] == history[n]);
    assert(is_result_message(all[head + n], b[k]));
}

} // verus!
