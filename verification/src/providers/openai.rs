//! OpenAI and compatible endpoints: requests, and the course of a response.

use crate::json;
use crate::json::{Json, Tree};
use crate::providers::chat_format;
use crate::providers::errors;
use crate::providers::errors::{Header, ProviderError};
use crate::providers::minimax;
use crate::providers::openai_models;
use crate::providers::openai_stream;
use crate::providers::openai_stream::OpenAiStreamDeltaState;
use crate::providers::sse;
use crate::providers::sse::{LineState, SseLineBuffer};
use crate::providers::types;
use crate::providers::types::{
    ApiStreamChunk, AssistantContentBlock, Chunk, MessageContent, Model, ModelFamily,
    OpenAiCompatibleModelInfo, ProviderModel, ProviderRequest, StorageMessage, UserContentBlock,
};
use crate::text;
use vstd::prelude::*;

verus! {

/// Longest time for a whole response, in seconds.
pub const OPENAI_CLIENT_TOTAL_TIMEOUT: u64 = 600;

/// What is added to it for a response that is not streamed, in seconds.
pub const OPENAI_NON_STREAM_PREOUTPUT_GRACE: u64 = 5;

/// Longest time for the headers of a response, in seconds.
pub const OPENAI_RESPONSE_HEADERS_TIMEOUT: u64 = 30;

/// Longest time for the first byte of a stream, in seconds.
pub const OPENAI_SSE_FIRST_BYTE_TIMEOUT: u64 = 90;

/// Longest time between the bytes of a stream, in seconds.
pub const OPENAI_SSE_INACTIVITY_TIMEOUT: u64 = 60;

/// The kind of endpoint that a provider talks to.
#[derive(Debug, Clone, Copy, PartialEq, Eq, Structural)]
pub enum OpenAiEndpointKind {
    Official,
    Compatible,
}

/// How a response comes.
#[derive(Debug, Clone, Copy, PartialEq, Eq, Structural)]
pub enum ProviderTransport {
    Streaming,
    Buffered,
}

/// How long to wait for the first output of a response, in seconds.
#[derive(Debug, Clone, Copy, PartialEq, Eq, Structural)]
pub struct PreoutputPolicy {
    pub budget: u64,
    pub transport: ProviderTransport,
}

/// Configuration for the OpenAI provider.
pub struct OpenAiConfig {
    pub api_key: String,
    pub base_url: Option<String>,
    pub model_id: String,
    pub model_info: Option<OpenAiCompatibleModelInfo>,
    pub reasoning_effort: Option<String>,
    pub extra_body: Option<Vec<(String, Json)>>,
    pub custom_headers: Option<Vec<(String, String)>>,
    pub endpoint_kind: OpenAiEndpointKind,
    /// Whether to request an SSE response. OpenAI-compatible custom endpoints
    /// may opt into a normal chat completion response for long generations.
    pub stream: bool,
    /// Provider name for error messages (defaults to "OpenAI" if not set).
    /// Used by OpenAI-compatible providers (OpenRouter, DeepSeek) to identify themselves in errors.
    pub provider_name: Option<String>,
}

/// OpenAI-compatible provider (covers generic OpenAI, Azure, and custom base URL).
pub struct OpenAiProvider {
    pub config: OpenAiConfig,
    pub provider_name: String,
    pub provider_sort: Option<String>,
}

// ---------------------------------------------------------------------------
// Requests
// ---------------------------------------------------------------------------

/// The model id names a family, at its beginning or after a slash.
pub open spec fn in_family(id: Seq<char>, family: Seq<char>) -> bool {
    text::begins(id, family) || text::has(id, "/"@ + family)
}

/// The request takes the shape of the official reasoning models.
pub open spec fn reasoning_shape(kind: OpenAiEndpointKind, id: Seq<char>) -> bool {
    kind == OpenAiEndpointKind::Official && (in_family(id, "o1"@) || in_family(id, "o3"@)
        || in_family(id, "o4"@) || in_family(id, "gpt-5"@)) && !text::has(id, "chat"@)
}

fn names_family(id: &str, family: &str) -> (r: bool)
    ensures
        r == in_family(id@, family@),
{
    let mut p = "/".to_owned();
    text::push_text(&mut p, family);
    text::starts_with(id, family) || text::contains(id, p.as_str())
}

/// A tool use as a part of an assistant turn.
pub open spec fn tool_use_part(id: Seq<char>, name: Seq<char>, input: Tree) -> Tree {
    json::empty_obj().put("type"@, Tree::Str("tool_use"@)).put("id"@, Tree::Str(id)).put(
        "name"@,
        Tree::Str(name),
    ).put("input"@, input)
}

/// The part of an assistant turn that a block is, where it is one. Thinking is not
/// sent.
pub open spec fn assistant_part(b: AssistantContentBlock) -> Option<Tree> {
    match b {
        AssistantContentBlock::Text(t) => Some(chat_format::text_part(t.text@)),
        AssistantContentBlock::Image(i) => Some(chat_format::image_source_part(i.source)),
        AssistantContentBlock::ToolUse(t) => Some(tool_use_part(t.id@, t.name@, t.input@)),
        AssistantContentBlock::Thinking(t) => None,
        AssistantContentBlock::RedactedThinking(t) => None,
        AssistantContentBlock::Document(d) => chat_format::document_part(d.source, true),
    }
}

/// The parts of an assistant turn.
pub open spec fn assistant_parts(blocks: Seq<AssistantContentBlock>) -> Seq<Tree>
    decreases blocks.len(),
{
    if blocks.len() == 0 {
        Seq::empty()
    } else {
        let rest = assistant_parts(blocks.drop_last());
        match assistant_part(blocks.last()) {
            Some(p) => rest.push(p),
            None => rest,
        }
    }
}

/// The messages that a turn becomes, with the parts of an assistant turn as they are.
pub open spec fn raw_messages(m: StorageMessage) -> Seq<Tree> {
    let role = chat_format::role_name(m.role);
    match m.content {
        MessageContent::Text(t) => seq![chat_format::message(role, Tree::Str(t@))],
        MessageContent::UserBlocks(b) => chat_format::user_messages(role, b@, true, true),
        MessageContent::AssistantBlocks(b) => seq![
            chat_format::message(role, Tree::Arr(assistant_parts(b@))),
        ],
    }
}

/// The messages that a history becomes.
pub open spec fn raw_history(v: Seq<StorageMessage>) -> Seq<Tree>
    decreases v.len(),
{
    if v.len() == 0 {
        Seq::empty()
    } else {
        raw_history(v.drop_last()) + raw_messages(v.last())
    }
}

/// A part is a tool use.
pub open spec fn is_tool_use(p: Tree) -> bool {
    p.get("type"@) == Some(Tree::Str("tool_use"@))
}

/// The tool uses among parts, as calls.
pub open spec fn part_calls(parts: Seq<Tree>) -> Seq<Tree>
    decreases parts.len(),
{
    if parts.len() == 0 {
        Seq::empty()
    } else {
        let rest = part_calls(parts.drop_last());
        let p = parts.last();
        if is_tool_use(p) {
            rest.push(
                json::empty_obj().put("id"@, member(p, "id"@)).put(
                    "type"@,
                    Tree::Str("function"@),
                ).put(
                    "function"@,
                    json::empty_obj().put("name"@, member(p, "name"@)).put(
                        "arguments"@,
                        Tree::Str(json::printed(member(p, "input"@))),
                    ),
                ),
            )
        } else {
            rest
        }
    }
}

/// A member, null where it is missing.
pub open spec fn member(t: Tree, key: Seq<char>) -> Tree {
    match t.get(key) {
        Some(v) => v,
        None => Tree::Null,
    }
}

/// The texts among parts.
pub open spec fn part_texts(parts: Seq<Tree>) -> Seq<Seq<char>>
    decreases parts.len(),
{
    if parts.len() == 0 {
        Seq::empty()
    } else {
        let rest = part_texts(parts.drop_last());
        let p = parts.last();
        if p.get("type"@) == Some(Tree::Str("text"@)) && p.get("text"@) is Some && p.get(
            "text"@,
        )->0 is Str {
            rest.push(p.get("text"@)->0->Str_0)
        } else {
            rest
        }
    }
}

/// Every part is a tool use.
pub open spec fn only_tool_uses(parts: Seq<Tree>) -> bool {
    forall|i: int| 0 <= i < parts.len() ==> is_tool_use(#[trigger] parts[i])
}

/// A message as it is sent: an assistant turn with its texts joined and its tool uses
/// as calls; any other message as it is.
pub open spec fn sent_message(m: Tree) -> Tree {
    match (m.get("role"@), m.get("content"@)) {
        (Some(Tree::Str(role)), Some(Tree::Arr(parts))) => if role == "assistant"@ {
            let joined = Tree::Str(text::joined(part_texts(parts), "\n"@));
            if part_calls(parts).len() == 0 {
                m.put("content"@, joined)
            } else {
                m.put("tool_calls"@, Tree::Arr(part_calls(parts))).put(
                    "content"@,
                    if only_tool_uses(parts) {
                        Tree::Null
                    } else {
                        joined
                    },
                )
            }
        } else {
            m
        },
        _ => m,
    }
}

/// A message of the user.
pub open spec fn is_user(m: Tree) -> bool {
    m.get("role"@) == Some(Tree::Str("user"@))
}

/// One of the messages is of the user.
pub open spec fn some_user(v: Seq<Tree>) -> bool {
    exists|i: int| 0 <= i < v.len() && is_user(#[trigger] v[i])
}

/// The messages with one of the user among them.
pub open spec fn with_user(v: Seq<Tree>) -> Seq<Tree> {
    if some_user(v) {
        v
    } else {
        v.push(chat_format::message("user"@, Tree::Str("Please proceed."@)))
    }
}

/// The messages of a request.
pub open spec fn body_messages(shape: bool, r: ProviderRequest) -> Seq<Tree> {
    let first = chat_format::message(
        if shape {
            "developer"@
        } else {
            "system"@
        },
        Tree::Str(r.system_prompt@),
    );
    with_user(seq![first] + raw_history(r.messages@)).map_values(|m: Tree| sent_message(m))
}

/// A key that the configuration cannot override.
pub open spec fn is_core(key: Seq<char>) -> bool {
    key == "model"@ || key == "messages"@ || key == "stream"@ || key == "stream_options"@ || key
        == "tools"@ || key == "tool_choice"@
}

/// The body with further members of the configuration, except under core keys.
pub open spec fn with_extra(body: Tree, extra: Seq<(Seq<char>, Tree)>) -> Tree
    decreases extra.len(),
{
    if extra.len() == 0 {
        body
    } else {
        let rest = with_extra(body, extra.drop_last());
        if is_core(extra.last().0) {
            rest
        } else {
            rest.put(extra.last().0, extra.last().1)
        }
    }
}

/// A member of text, where there is one.
pub open spec fn opt_text_tree(t: Option<String>) -> Option<Tree> {
    match t {
        Some(s) => Some(Tree::Str(s@)),
        None => None,
    }
}

/// The body of a request, before further members of the configuration.
pub open spec fn core_body(c: OpenAiConfig, sort: Option<String>, r: ProviderRequest) -> Tree {
    let shape = reasoning_shape(c.endpoint_kind, c.model_id@);
    let a = json::empty_obj().put("model"@, Tree::Str(c.model_id@)).put(
        "messages"@,
        Tree::Arr(body_messages(shape, r)),
    ).put("stream"@, Tree::Bool(c.stream));
    let b = if c.stream {
        a.put("stream_options"@, json::empty_obj().put("include_usage"@, Tree::Bool(true)))
    } else {
        a
    };
    let d = match sort {
        Some(s) => b.put("provider"@, json::empty_obj().put("sort"@, Tree::Str(s@))),
        None => b,
    };
    let temperature = match c.model_info {
        Some(m) => m.base.temperature,
        None => None,
    };
    let e = if !shape && temperature is Some && temperature->0 != 0 {
        d.put("temperature"@, Tree::Real(text::micro_decimal(temperature->0 as nat)))
    } else {
        d
    };
    let known_limit = match c.model_info {
        Some(m) => m.base.max_tokens,
        None => None,
    };
    let f = minimax::put_opt(
        e,
        if shape {
            "max_completion_tokens"@
        } else {
            "max_tokens"@
        },
        minimax::limit_tree(r.max_tokens, known_limit),
    );
    let g = minimax::put_opt(f, "reasoning_effort"@, opt_text_tree(c.reasoning_effort));
    match r.tools {
        Some(v) => g.put("tools"@, chat_format::tools_tree(v@)).put(
            "tool_choice"@,
            chat_format::tool_choice_tree(r.tool_choice),
        ),
        None => g,
    }
}

/// The body of a request.
pub open spec fn request_body(c: OpenAiConfig, sort: Option<String>, r: ProviderRequest) -> Tree {
    match c.extra_body {
        Some(x) => with_extra(core_body(c, sort, r), json::members(x@)),
        None => core_body(c, sort, r),
    }
}

/// Further members of the configuration never change the model, the messages, the
/// streaming or the tools of a request.
pub proof fn law_extra_body_keeps_core(body: Tree, extra: Seq<(Seq<char>, Tree)>, key: Seq<char>)
    requires
        body is Obj,
        is_core(key),
    ensures
        with_extra(body, extra) is Obj,
        with_extra(body, extra).get(key) == body.get(key),
    decreases extra.len(),
{
    if extra.len() > 0 {
        law_extra_body_keeps_core(body, extra.drop_last(), key);
        if !is_core(extra.last().0) {
            json::law_put_then_get(
                with_extra(body, extra.drop_last()),
                extra.last().0,
                extra.last().1,
                key,
            );
        }
    }
}

/// Sending a message does not change its role.
proof fn lemma_sent_keeps_role(m: Tree)
    ensures
        sent_message(m).get("role"@) == m.get("role"@),
{
    reveal_strlit("role");
    reveal_strlit("content");
    reveal_strlit("tool_calls");
    assert("role"@.len() == 4);
    assert("content"@.len() == 7);
    assert("tool_calls"@.len() == 10);
    if m is Obj {
        match m.get("content"@) {
            Some(Tree::Arr(parts)) => {
                let joined = Tree::Str(text::joined(part_texts(parts), "\n"@));
                json::law_put_then_get(m, "content"@, joined, "role"@);
                let c = m.put("tool_calls"@, Tree::Arr(part_calls(parts)));
                json::law_put_then_get(
                    m,
                    "tool_calls"@,
                    Tree::Arr(part_calls(parts)),
                    "role"@,
                );
                json::law_put_then_get(c, "content"@, joined, "role"@);
                json::law_put_then_get(c, "content"@, Tree::Null, "role"@);
            },
            _ => {},
        }
    }
}

/// Every request holds a message of the user.
pub proof fn law_request_has_a_user_message(shape: bool, r: ProviderRequest)
    ensures
        some_user(body_messages(shape, r)),
{
    let first = chat_format::message(
        if shape {
            "developer"@
        } else {
            "system"@
        },
        Tree::Str(r.system_prompt@),
    );
    let raw = seq![first] + raw_history(r.messages@);
    let all = with_user(raw);
    let added = chat_format::message("user"@, Tree::Str("Please proceed."@));
    if !some_user(raw) {
        let a = json::empty_obj().put("role"@, Tree::Str("user"@));
        json::law_put_then_get(json::empty_obj(), "role"@, Tree::Str("user"@), "role"@);
        reveal_strlit("role");
        reveal_strlit("content");
        assert("role"@.len() != "content"@.len());
        json::law_put_then_get(a, "content"@, Tree::Str("Please proceed."@), "role"@);
        assert(all.last() == added);
        assert(is_user(all[all.len() - 1]));
    }
    let i = choose|i: int| 0 <= i < all.len() && is_user(#[trigger] all[i]);
    lemma_sent_keeps_role(all[i]);
    assert(is_user(body_messages(shape, r)[i]));
}

/// The parts of an assistant turn.
pub fn convert_assistant_blocks(blocks: &Vec<AssistantContentBlock>) -> (r: Vec<Json>)
    ensures
        json::trees(r@) == assistant_parts(blocks@),
{
    let mut out = chat_format::no_json();
    let mut i: usize = 0;
    assert(blocks@.take(0) =~= Seq::empty());
    while i < blocks.len()
        invariant
            i <= blocks@.len(),
            json::trees(out@) == assistant_parts(blocks@.take(i as int)),
        decreases blocks@.len() - i,
    {
        proof {
            assert(blocks@.take(i + 1).drop_last() =~= blocks@.take(i as int));
            assert(blocks@.take(i + 1).last() == blocks@[i as int]);
        }
        match &blocks[i] {
            AssistantContentBlock::Text(t) => {
                chat_format::push_json(&mut out, chat_format::make_text_part(t.text.as_str()));
            },
            AssistantContentBlock::Image(img) => {
                chat_format::push_json(&mut out, chat_format::make_image_source_part(&img.source));
            },
            AssistantContentBlock::ToolUse(t) => {
                let mut m = Json::object();
                m.put("type", Json::str("tool_use"));
                m.put("id", Json::str(t.id.as_str()));
                m.put("name", Json::str(t.name.as_str()));
                m.put("input", t.input.copy());
                chat_format::push_json(&mut out, m);
            },
            AssistantContentBlock::Thinking(_) => {},
            AssistantContentBlock::RedactedThinking(_) => {},
            AssistantContentBlock::Document(d) => {
                if let Some(p) = chat_format::make_document_part(&d.source, true) {
                    chat_format::push_json(&mut out, p);
                }
            },
        }
        i = i + 1;
    }
    assert(blocks@.take(i as int) =~= blocks@);
    out
}

/// The messages that a user turn becomes: its tool results, then its content.
pub fn convert_user_blocks(role: &str, blocks: &Vec<UserContentBlock>) -> (r: Vec<Json>)
    ensures
        json::trees(r@) == chat_format::user_messages(role@, blocks@, true, true),
{
    chat_format::make_user_messages(role, blocks, true, true)
}

fn has_text(j: &Json, key: &str, value: &str) -> (r: bool)
    ensures
        r == (j@.get(key@) == Some(Tree::Str(value@))),
{
    match j.get(key) {
        Some(v) => match v.as_str() {
            Some(s) => text::same(s.as_str(), value),
            None => false,
        },
        None => false,
    }
}

fn copy_member(j: &Json, key: &str) -> (r: Json)
    ensures
        r@ == member(j@, key@),
{
    match j.get(key) {
        Some(v) => v.copy(),
        None => Json::Null,
    }
}

/// The texts among parts, each on a line of its own.
pub fn join_assistant_text_parts(parts: &Vec<Json>) -> (r: String)
    ensures
        r@ == text::joined(part_texts(json::trees(parts@)), "\n"@),
{
    let ghost ts = json::trees(parts@);
    let mut out: Vec<String> = Vec::new();
    let mut i: usize = 0;
    assert(ts.take(0) =~= Seq::empty());
    assert(text::texts(out@) =~= Seq::empty());
    while i < parts.len()
        invariant
            i <= parts@.len(),
            ts == json::trees(parts@),
            text::texts(out@) == part_texts(ts.take(i as int)),
        decreases parts@.len() - i,
    {
        proof {
            assert(ts.take(i + 1).drop_last() =~= ts.take(i as int));
            assert(ts.take(i + 1).last() == parts@[i as int]@);
        }
        if has_text(&parts[i], "type", "text") {
            if let Some(v) = parts[i].get("text") {
                if let Some(s) = v.as_str() {
                    let ghost before = out@;
                    out.push(s.clone());
                    assert(text::texts(out@) =~= text::texts(before).push(s@));
                }
            }
        }
        i = i + 1;
    }
    assert(ts.take(i as int) =~= ts);
    text::join(&out, "\n")
}

/// The message as it is sent.
fn send_message(m: Json) -> (r: Json)
    ensures
        r@ == sent_message(m@),
{
    let ghost t = m@;
    if !has_text(&m, "role", "assistant") {
        return m;
    }
    let mut calls = chat_format::no_json();
    let mut only_calls = true;
    let joined: String;
    match m.get("content") {
        None => {
            return m;
        },
        Some(c) => match c.as_array() {
            None => {
                return m;
            },
            Some(parts) => {
                let ghost ts = json::trees(parts@);
                let mut i: usize = 0;
                assert(ts.take(0) =~= Seq::empty());
                while i < parts.len()
                    invariant
                        i <= parts@.len(),
                        ts == json::trees(parts@),
                        json::trees(calls@) == part_calls(ts.take(i as int)),
                        only_calls == only_tool_uses(ts.take(i as int)),
                    decreases parts@.len() - i,
                {
                    proof {
                        assert(ts.take(i + 1).drop_last() =~= ts.take(i as int));
                        assert(ts.take(i + 1).last() == parts@[i as int]@);
                    }
                    if has_text(&parts[i], "type", "tool_use") {
                        let input = copy_member(&parts[i], "input");
                        let arguments = json::print(&input);
                        let mut f = Json::object();
                        f.put("name", copy_member(&parts[i], "name"));
                        f.put("arguments", Json::str(arguments.as_str()));
                        let mut call = Json::object();
                        call.put("id", copy_member(&parts[i], "id"));
                        call.put("type", Json::str("function"));
                        call.put("function", f);
                        chat_format::push_json(&mut calls, call);
                        proof {
                            assert(only_calls ==> only_tool_uses(ts.take(i + 1))) by {
                                assert forall|j: int|
                                    only_calls && 0 <= j < ts.take(i + 1).len() implies is_tool_use(
                                    #[trigger] ts.take(i + 1)[j],
                                ) by {
                                    if j < i {
                                        assert(ts.take(i as int)[j] == ts.take(i + 1)[j]);
                                    }
                                }
                            }
                            assert(!only_calls ==> !only_tool_uses(ts.take(i + 1))) by {
                                if !only_calls {
                                    let j = choose|j: int|
                                        0 <= j < i && !is_tool_use(#[trigger] ts.take(i as int)[j]);
                                    assert(ts.take(i + 1)[j] == ts.take(i as int)[j]);
                                }
                            }
                        }
                    } else {
                        only_calls = false;
                        assert(!is_tool_use(ts.take(i + 1)[i as int]));
                    }
                    i = i + 1;
                }
                assert(ts.take(i as int) =~= ts);
                joined = join_assistant_text_parts(parts);
            },
        },
    }
    let mut out = m;
    if calls.len() == 0 {
        out.put("content", Json::Str(joined));
    } else {
        out.put("tool_calls", Json::array(calls));
        if only_calls {
            out.put("content", Json::Null);
        } else {
            out.put("content", Json::Str(joined));
        }
    }
    out
}

/// The address of the endpoint: as configured, without white space around it, a
/// trailing `/chat/completions` and trailing slashes, before and after it; the official
/// one by default.
pub open spec fn endpoint(configured: Option<Seq<char>>) -> Seq<char> {
    match configured {
        Some(u) => if u.len() > 0 {
            let t = text::without_tail(text::trimmed(u), '/');
            let s = if text::ends(t, "/chat/completions"@) {
                t.take(t.len() - "/chat/completions"@.len())
            } else {
                t
            };
            text::without_tail(s, '/')
        } else {
            "https://api.openai.com/v1"@
        },
        None => "https://api.openai.com/v1"@,
    }
}

/// The address never ends with a slash.
pub proof fn law_endpoint_ends_without_slash(configured: Option<Seq<char>>)
    ensures
        endpoint(configured).len() > 0 ==> endpoint(configured).last() != '/',
{
    reveal_strlit("https://api.openai.com/v1");
    if let Some(u) = configured {
        let t = text::without_tail(text::trimmed(u), '/');
        text::lemma_without_tail(t, '/');
        text::lemma_without_tail(t.take(t.len() - "/chat/completions"@.len()), '/');
    }
}

/// An address may be configured with the path of chat completions, with slashes, or with
/// both: it is the same address.
pub proof fn law_endpoint_is_normalized(address: Seq<char>, slashes: nat, more: nat)
    requires
        address.len() > 0,
        text::trimmed(address) == address,
        address.last() != '/',
        !text::ends(address, "/chat/completions"@),
    ensures
        ({
            let tail = Seq::new(slashes, |i: int| '/');
            let inner = Seq::new(more, |i: int| '/');
            &&& endpoint(Some(address)) == address
            &&& endpoint(Some(address + tail)) == address
            &&& endpoint(Some(address + inner + "/chat/completions"@ + tail)) == address
        }),
{
    reveal_strlit("/chat/completions");
    let path = "/chat/completions"@;
    let tail = Seq::new(slashes, |i: int| '/');
    let inner = Seq::new(more, |i: int| '/');
    text::lemma_trimmed_ends(address);
    lemma_slashes(address, slashes);
    lemma_slashes(address, more);
    text::lemma_without_tail(address, '/');
    assert(address + Seq::new(0nat, |i: int| '/') =~= address);
    lemma_slashes(address, 0);
    let long = address + inner + path;
    assert(long.last() == path.last());
    lemma_slashes(long, slashes);
    assert(long.subrange(long.len() - path.len(), long.len() as int) =~= path);
    assert(long.take(long.len() - path.len()) =~= address + inner);
    let t = long + tail;
    assert(t[0] == address[0]);
    assert(t.last() == '/' || t.last() == path.last());
    text::lemma_nothing_to_trim(t);
    let u = address + tail;
    assert(u[0] == address[0]);
    assert(u.last() == '/' || u.last() == address.last());
    text::lemma_nothing_to_trim(u);
}

proof fn lemma_slashes(s: Seq<char>, n: nat)
    requires
        s.len() > 0,
        s.last() != '/',
    ensures
        text::without_tail(s + Seq::new(n, |i: int| '/'), '/') == s,
    decreases n,
{
    let w = s + Seq::new(n, |i: int| '/');
    if n == 0 {
        assert(w =~= s);
    } else {
        lemma_slashes(s, (n - 1) as nat);
        assert(w.drop_last() =~= s + Seq::new((n - 1) as nat, |i: int| '/'));
    }
}

/// The further headers of a configuration.
pub open spec fn custom_headers(c: OpenAiConfig) -> Seq<(Seq<char>, Seq<char>)> {
    match c.custom_headers {
        Some(v) => text::pair_texts(v@),
        None => Seq::empty(),
    }
}

impl OpenAiProvider {
    /// A provider with a configuration.
    pub fn new(config: OpenAiConfig) -> (r: OpenAiProvider)
        ensures
            r.config == config,
            r.provider_name@ == (match config.provider_name {
                Some(n) => n@,
                None => "OpenAI"@,
            }),
            r.provider_sort is None,
    {
        let provider_name = match &config.provider_name {
            Some(n) => n.clone(),
            None => "OpenAI".to_owned(),
        };
        OpenAiProvider { config, provider_name, provider_sort: None }
    }

    /// The provider with a way to sort the providers behind the endpoint.
    pub fn with_provider_sort(self, provider_sort: Option<String>) -> (r: OpenAiProvider)
        ensures
            r == (OpenAiProvider { provider_sort, ..self }),
    {
        OpenAiProvider {
            config: self.config,
            provider_name: self.provider_name,
            provider_sort,
        }
    }

    /// The headers of a request.
    pub fn build_headers(&self) -> (r: Vec<(String, String)>)
        ensures
            text::pair_texts(r@) == minimax::request_headers(
                self.config.api_key@,
                custom_headers(self.config),
            ),
    {
        match &self.config.custom_headers {
            Some(v) => minimax::make_request_headers(self.config.api_key.as_str(), v),
            None => {
                let none: Vec<(String, String)> = Vec::new();
                assert(text::pair_texts(none@) =~= Seq::empty());
                minimax::make_request_headers(self.config.api_key.as_str(), &none)
            },
        }
    }

    /// The address for chat completions.
    pub fn completions_url(&self) -> (r: String)
        ensures
            r@ == endpoint(text::opt(self.config.base_url)) + "/chat/completions"@,
    {
        let mut s = self.base_url();
        text::push_text(&mut s, "/chat/completions");
        s
    }

    /// What to make of a response by its status and the type of its contents: an
    /// endpoint that is not asked for a stream may still send one.
    pub fn response_kind(&self, status: u16, content_type: &Option<String>) -> (r: ResponseKind)
        ensures
            r == (if !succeeded(status) {
                ResponseKind::Failure
            } else if self.config.stream || announces_events(text::opt(*content_type)) {
                ResponseKind::Events
            } else {
                ResponseKind::Whole
            }),
    {
        if status < 200 || status >= 300 {
            ResponseKind::Failure
        } else if self.config.stream || is_event_stream(content_type) {
            ResponseKind::Events
        } else {
            ResponseKind::Whole
        }
    }

    /// The address of the endpoint.
    pub fn base_url(&self) -> (r: String)
        ensures
            r@ == endpoint(text::opt(self.config.base_url)),
    {
        if let Some(u) = &self.config.base_url {
            if !u.as_str().is_empty() {
                let trimmed = text::trim(u.as_str());
                let t = text::trim_tail(trimmed.as_str(), '/');
                let s = match text::strip_suffix(t.as_str(), "/chat/completions") {
                    Some(s) => s,
                    None => t,
                };
                return text::trim_tail(s.as_str(), '/');
            }
        }
        "https://api.openai.com/v1".to_owned()
    }

    /// The body of a request.
    pub fn build_request_body(&self, request: &ProviderRequest) -> (r: Json)
        ensures
            r@ == request_body(self.config, self.provider_sort, *request),
    {
        let id = self.config.model_id.as_str();
        let official = match self.config.endpoint_kind {
            OpenAiEndpointKind::Official => true,
            OpenAiEndpointKind::Compatible => false,
        };
        let shape = official && (names_family(id, "o1") || names_family(id, "o3") || names_family(
            id,
            "o4",
        ) || names_family(id, "gpt-5")) && !text::contains(id, "chat");
        let messages = make_messages(shape, request);
        let mut body = Json::object();
        body.put("model", Json::str(id));
        body.put("messages", Json::array(messages));
        body.put("stream", Json::Bool(self.config.stream));
        if self.config.stream {
            let mut o = Json::object();
            o.put("include_usage", Json::Bool(true));
            body.put("stream_options", o);
        }
        if let Some(s) = &self.provider_sort {
            let mut o = Json::object();
            o.put("sort", Json::str(s.as_str()));
            body.put("provider", o);
        }
        let (temperature, known_limit): (Option<u64>, Option<u32>) = match &self.config.model_info {
            Some(m) => (m.base.temperature, m.base.max_tokens),
            None => (None, None),
        };
        if !shape {
            if let Some(t) = temperature {
                if t != 0 {
                    body.put("temperature", Json::Real(text::micro_text(t)));
                }
            }
        }
        let limit: Option<u32> = match request.max_tokens {
            Some(n) => Some(n),
            None => known_limit,
        };
        if let Some(n) = limit {
            if n > 0 {
                if shape {
                    body.put("max_completion_tokens", Json::Int(n as i128));
                } else {
                    body.put("max_tokens", Json::Int(n as i128));
                }
            }
        }
        if let Some(e) = &self.config.reasoning_effort {
            body.put("reasoning_effort", Json::str(e.as_str()));
        }
        if let Some(tools) = &request.tools {
            body.put("tools", chat_format::make_tools(tools));
            body.put("tool_choice", chat_format::make_tool_choice(&request.tool_choice));
        }
        assert(body@ == core_body(self.config, self.provider_sort, *request));
        if let Some(extra) = &self.config.extra_body {
            add_extra(&mut body, extra);
        }
        body
    }

    /// The model that the provider talks to.
    pub fn get_model(&self) -> (r: ProviderModel)
        ensures
            r.id@ == self.config.model_id@,
            r.info@ == (match self.config.model_info {
                Some(m) => m.base@,
                None => openai_models::openai_model(self.config.model_id@).base,
            }),
    {
        let info = match &self.config.model_info {
            Some(m) => m.base.copy(),
            None => openai_models::get_openai_model_info(self.config.model_id.as_str()).base,
        };
        ProviderModel { id: self.config.model_id.clone(), info }
    }

    /// The name of the provider.
    pub fn name(&self) -> (r: &'static str)
        ensures
            r@ == "openai"@,
    {
        "openai"
    }

    /// How long to wait for the first output.
    pub fn preoutput_policy(&self) -> (r: PreoutputPolicy)
        ensures
            r == (if self.config.stream {
                PreoutputPolicy { budget: 180, transport: ProviderTransport::Streaming }
            } else {
                PreoutputPolicy {
                    budget: (OPENAI_CLIENT_TOTAL_TIMEOUT + OPENAI_NON_STREAM_PREOUTPUT_GRACE) as u64,
                    transport: ProviderTransport::Buffered,
                }
            }),
    {
        if self.config.stream {
            PreoutputPolicy { budget: 180, transport: ProviderTransport::Streaming }
        } else {
            PreoutputPolicy {
                budget: OPENAI_CLIENT_TOTAL_TIMEOUT + OPENAI_NON_STREAM_PREOUTPUT_GRACE,
                transport: ProviderTransport::Buffered,
            }
        }
    }
}

fn add_extra(body: &mut Json, extra: &Vec<(String, Json)>)
    ensures
        final(body)@ == with_extra(old(body)@, json::members(extra@)),
{
    let ghost start = body@;
    let ghost ms = json::members(extra@);
    let mut i: usize = 0;
    assert(ms.take(0) =~= Seq::empty());
    while i < extra.len()
        invariant
            i <= extra@.len(),
            ms == json::members(extra@),
            body@ == with_extra(start, ms.take(i as int)),
        decreases extra@.len() - i,
    {
        proof {
            assert(ms.take(i + 1).drop_last() =~= ms.take(i as int));
            assert(ms.take(i + 1).last() == (extra@[i as int].0@, extra@[i as int].1@));
        }
        let key = extra[i].0.as_str();
        if !(text::same(key, "model") || text::same(key, "messages") || text::same(key, "stream")
            || text::same(key, "stream_options") || text::same(key, "tools") || text::same(
            key,
            "tool_choice",
        )) {
            body.put(key, extra[i].1.copy());
        }
        i = i + 1;
    }
    assert(ms.take(i as int) =~= ms);
}

fn make_messages(shape: bool, request: &ProviderRequest) -> (r: Vec<Json>)
    ensures
        json::trees(r@) == body_messages(shape, *request),
{
    let mut raw = chat_format::no_json();
    chat_format::push_json(
        &mut raw,
        chat_format::make_message(
            if shape {
                "developer"
            } else {
                "system"
            },
            Json::str(request.system_prompt.as_str()),
        ),
    );
    let ghost head = json::trees(raw@);
    let mut i: usize = 0;
    assert(head + raw_history(request.messages@.take(0)) =~= head);
    while i < request.messages.len()
        invariant
            i <= request.messages@.len(),
            json::trees(raw@) =~= head + raw_history(request.messages@.take(i as int)),
        decreases request.messages@.len() - i,
    {
        proof {
            assert(request.messages@.take(i + 1).drop_last() =~= request.messages@.take(i as int));
            assert(request.messages@.take(i + 1).last() == request.messages@[i as int]);
        }
        let m = &request.messages[i];
        let role = chat_format::role_text(m.role);
        match &m.content {
            MessageContent::Text(t) => {
                chat_format::push_json(
                    &mut raw,
                    chat_format::make_message(role, Json::str(t.as_str())),
                );
            },
            MessageContent::UserBlocks(b) => {
                chat_format::append_json(&mut raw, convert_user_blocks(role, b));
            },
            MessageContent::AssistantBlocks(b) => {
                let parts = convert_assistant_blocks(b);
                chat_format::push_json(
                    &mut raw,
                    chat_format::make_message(role, Json::array(parts)),
                );
            },
        }
        i = i + 1;
    }
    assert(request.messages@.take(i as int) =~= request.messages@);
    let ghost all = json::trees(raw@);
    let mut user = false;
    let mut k: usize = 0;
    while k < raw.len()
        invariant
            k <= raw@.len(),
            all == json::trees(raw@),
            user == (exists|j: int| 0 <= j < k && is_user(#[trigger] all[j])),
        decreases raw@.len() - k,
    {
        assert(all[k as int] == raw@[k as int]@);
        if has_text(&raw[k], "role", "user") {
            user = true;
            assert(is_user(all[k as int]));
        }
        k = k + 1;
    }
    if !user {
        chat_format::push_json(
            &mut raw,
            chat_format::make_message("user", Json::str("Please proceed.")),
        );
    }
    let ghost full = json::trees(raw@);
    assert(full =~= with_user(all));
    let ghost sent = full.map_values(|m: Tree| sent_message(m));
    let mut out = chat_format::no_json();
    let mut n: usize = 0;
    while n < raw.len()
        invariant
            n <= raw@.len(),
            full == json::trees(raw@),
            sent == full.map_values(|m: Tree| sent_message(m)),
            json::trees(out@) =~= sent.take(n as int),
        decreases raw@.len() - n,
    {
        let m = send_message(raw[n].copy());
        assert(sent[n as int] == m@);
        chat_format::push_json(&mut out, m);
        n = n + 1;
    }
    assert(sent.take(n as int) =~= sent);
    out
}

// ---------------------------------------------------------------------------
// Failures
// ---------------------------------------------------------------------------

/// The body of a failed response, with a hint where the model belongs to another
/// provider: to Anthropic, whose family of models is given, or to Google.
pub open spec fn hinted_body(
    status: u16,
    model_id: Seq<char>,
    body: Seq<char>,
    word: Seq<char>,
    title: Seq<char>,
) -> Seq<char> {
    let lower = text::lowercased(model_id);
    if status == 404 && text::begins(lower, word + "-"@) {
        body + "\n\nHint: Model '"@ + model_id
            + "' looks like an Anthropic "@ + title + " model. If you intended to use "@ + title
            + ", set ANTHROPIC_API_KEY or use --provider anthropic."@
    } else if status == 404 && text::begins(lower, "gemini-"@) {
        body + "\n\nHint: Model '"@ + model_id
            + "' looks like a Google Gemini model. If you intended to use Gemini, set GEMINI_API_KEY or use --provider gemini."@
    } else {
        body
    }
}

/// The body of a failed response, with a hint where the model belongs to another
/// provider: to Anthropic, whose family of models is given, or to Google.
pub fn hint_body(status: u16, model_id: &str, body: String, family: &ModelFamily) -> (r: String)
    ensures
        r@ == hinted_body(status, model_id@, body@, family.word@, family.title@),
{
    if status != 404 {
        return body;
    }
    let lower = text::to_lower(model_id);
    let mut out = body;
    let front = family.id("-");
    if text::starts_with(lower.as_str(), front.as_str()) {
        text::push_text(&mut out, "\n\nHint: Model '");
        text::push_text(&mut out, model_id);
        text::push_text(&mut out, "' looks like an Anthropic ");
        text::push_text(&mut out, family.title.as_str());
        text::push_text(&mut out, " model. If you intended to use ");
        text::push_text(&mut out, family.title.as_str());
        text::push_text(&mut out, ", set ANTHROPIC_API_KEY or use --provider anthropic.");
    } else if text::starts_with(lower.as_str(), "gemini-") {
        text::push_text(&mut out, "\n\nHint: Model '");
        text::push_text(&mut out, model_id);
        text::push_text(
            &mut out,
            "' looks like a Google Gemini model. If you intended to use Gemini, set GEMINI_API_KEY or use --provider gemini.",
        );
    }
    out
}

/// Trying again may help after a transfer failed with this message.
pub open spec fn is_retryable(error: Seq<char>) -> bool {
    let e = text::lowercased(error);
    text::has(e, "timeout"@) || text::has(e, "connection"@) || text::has(e, "incomplete"@)
        || text::has(e, "decode"@) || text::has(e, "decoding"@)
}

/// Whether trying again may help after a transfer failed.
pub fn is_retryable_stream_transport_error(error: &str) -> (r: bool)
    ensures
        r == is_retryable(error@),
{
    let e = text::to_lower(error);
    let s = e.as_str();
    text::contains(s, "timeout") || text::contains(s, "connection") || text::contains(
        s,
        "incomplete",
    ) || text::contains(s, "decode") || text::contains(s, "decoding")
}

/// A span of time, in seconds: what a setting gives, if it is a positive number.
pub open spec fn setting_secs(value: Option<Seq<char>>, default: u64) -> u64 {
    match value {
        Some(v) => match text::parsed_u64(v) {
            Some(n) => if n > 0 {
                n
            } else {
                default
            },
            None => default,
        },
        None => default,
    }
}

/// A span of time, in seconds, from the value of an environment variable.
pub fn stream_timeout_from_env(value: &Option<String>, default: u64) -> (r: u64)
    ensures
        r == setting_secs(text::opt(*value), default),
{
    if let Some(v) = value {
        if let Some(n) = text::parse_u64(v.as_str()) {
            if n > 0 {
                return n;
            }
        }
    }
    default
}

/// How long to wait for the headers of a response, in seconds, from the value of
/// `SNED_RESPONSE_HEADERS_TIMEOUT_SECS`.
pub fn response_headers_timeout(value: &Option<String>) -> (r: u64)
    ensures
        r == setting_secs(text::opt(*value), OPENAI_RESPONSE_HEADERS_TIMEOUT),
{
    stream_timeout_from_env(value, OPENAI_RESPONSE_HEADERS_TIMEOUT)
}

/// The error of a response whose headers did not come in time.
pub fn headers_timed_out(secs: u64) -> (r: ProviderError)
    ensures
        r@ == errors::Failure::Network(
            "OpenAI response headers timed out after "@ + text::decimal(secs as nat) + "s"@,
        ),
{
    let mut m = "OpenAI response headers timed out after ".to_owned();
    let n = text::number_text(secs);
    text::push_text(&mut m, n.as_str());
    text::push_text(&mut m, "s");
    ProviderError::NetworkError(m)
}

/// What a response holds.
#[derive(Debug, Clone, Copy, PartialEq, Eq, Structural)]
pub enum ResponseKind {
    /// The report of an error.
    Failure,
    /// A whole completion.
    Whole,
    /// A stream of events.
    Events,
}

/// A status that tells of success.
pub open spec fn succeeded(status: u16) -> bool {
    200 <= status < 300
}

/// A type of contents that announces a stream of events.
pub open spec fn announces_events(content_type: Option<Seq<char>>) -> bool {
    match content_type {
        Some(t) => text::has(text::ascii_lowered(t), "text/event-stream"@),
        None => false,
    }
}

/// Whether a response announces a stream of events.
pub fn is_event_stream(content_type: &Option<String>) -> (r: bool)
    ensures
        r == announces_events(text::opt(*content_type)),
{
    match content_type {
        Some(t) => {
            let l = text::ascii_lowercase(t.as_str());
            text::contains(l.as_str(), "text/event-stream")
        },
        None => false,
    }
}

/// The headers that a report of a failed stream shows.
pub open spec fn shown_headers() -> Seq<Seq<char>> {
    seq![
        "content-encoding"@,
        "content-type"@,
        "transfer-encoding"@,
        "content-length"@,
        "server"@,
        "x-request-id"@,
        "openai-request-id"@,
        "cf-ray"@,
    ]
}

/// The first `n` shown headers that a response has, as `name=value`.
pub open spec fn header_notes(headers: Seq<Header>, n: int) -> Seq<Seq<char>>
    decreases n,
{
    if n <= 0 {
        Seq::empty()
    } else {
        let rest = header_notes(headers, n - 1);
        match errors::header_text(headers, shown_headers()[n - 1]) {
            Some(v) => rest.push(shown_headers()[n - 1] + "="@ + v),
            None => rest,
        }
    }
}

/// What a report of a failed stream says of its course.
pub open spec fn diagnostics(headers: Seq<Header>, elapsed: u64, first_byte: Option<u64>) -> Seq<
    char,
> {
    let times = seq![
        "elapsed="@ + text::decimal(elapsed as nat) + "ms"@,
        match first_byte {
            Some(t) => "first_byte="@ + text::decimal(t as nat) + "ms"@,
            None => "first_byte=pending"@,
        },
    ];
    text::joined(times + header_notes(headers, 8), ", "@)
}

/// What a report of a failed stream says of its course. Times are in milliseconds.
pub fn format_stream_error_diagnostics(
    headers: &Vec<Header>,
    elapsed: u64,
    first_byte_elapsed: Option<u64>,
) -> (r: String)
    ensures
        r@ == diagnostics(headers@, elapsed, first_byte_elapsed),
{
    let mut parts: Vec<String> = Vec::new();
    let mut e = "elapsed=".to_owned();
    let n = text::number_text(elapsed);
    text::push_text(&mut e, n.as_str());
    text::push_text(&mut e, "ms");
    parts.push(e);
    let first = match first_byte_elapsed {
        Some(t) => {
            let mut f = "first_byte=".to_owned();
            let n = text::number_text(t);
            text::push_text(&mut f, n.as_str());
            text::push_text(&mut f, "ms");
            f
        },
        None => "first_byte=pending".to_owned(),
    };
    parts.push(first);
    let ghost times = text::texts(parts@);
    let names: [&str; 8] = [
        "content-encoding",
        "content-type",
        "transfer-encoding",
        "content-length",
        "server",
        "x-request-id",
        "openai-request-id",
        "cf-ray",
    ];
    let mut i: usize = 0;
    assert(times + header_notes(headers@, 0) =~= times);
    while i < 8
        invariant
            i <= 8,
            names@.len() == 8,
            forall|j: int| 0 <= j < 8 ==> (#[trigger] names@[j])@ == shown_headers()[j],
            text::texts(parts@) =~= times + header_notes(headers@, i as int),
        decreases 8 - i,
    {
        assert(names@[i as int]@ == shown_headers()[i as int]);
        if let Some(v) = errors::header_value(headers, names[i]) {
            let mut note = names[i].to_owned();
            text::push_text(&mut note, "=");
            text::push_text(&mut note, v.as_str());
            let ghost before = parts@;
            parts.push(note);
            assert(text::texts(parts@) =~= text::texts(before).push(note@));
        }
        i = i + 1;
    }
    assert(times =~= seq![
        "elapsed="@ + text::decimal(elapsed as nat) + "ms"@,
        match first_byte_elapsed {
            Some(t) => "first_byte="@ + text::decimal(t as nat) + "ms"@,
            None => "first_byte=pending"@,
        },
    ]);
    text::join(&parts, ", ")
}

// ---------------------------------------------------------------------------
// The course of a streamed response
// ---------------------------------------------------------------------------

/// What happens next to a streamed response.
#[derive(Debug)]
pub enum StreamEvent {
    /// Bytes came in.
    Bytes(Vec<u8>),
    /// The response ended.
    Ended,
    /// Nothing came in for too long.
    TimedOut,
    /// The transfer failed.
    Failed(String),
    /// Nobody reads the chunks any more.
    Closed,
}

/// What to do next.
#[derive(Debug, Clone, Copy, PartialEq, Eq, Structural)]
pub enum NextStep {
    /// Wait for the next event.
    Continue,
    /// End the response.
    Finish,
    /// Stop without ending the response.
    Stop,
}

/// A streamed response.
#[derive(Debug)]
pub struct OpenAiSession {
    pub buffer: SseLineBuffer,
    pub state: OpenAiStreamDeltaState,
    /// When the first byte came, in milliseconds.
    pub first_byte: Option<u64>,
}

/// The report of a stream in which nothing came in for too long.
pub open spec fn timeout_report(first_byte: Option<u64>, timeout: u64, notes: Seq<char>) -> Seq<
    char,
> {
    "OpenAI SSE "@ + (if first_byte is Some {
        "inactivity"@
    } else {
        "first byte"@
    }) + " timeout after "@ + text::decimal(timeout as nat) + "ms; diagnostics: "@ + notes
        + " (retryable)"@
}

/// The report of a stream whose transfer failed.
pub open spec fn failure_report(error: Seq<char>, notes: Seq<char>) -> Seq<char> {
    "OpenAI SSE stream error: "@ + error + "; diagnostics: "@ + notes + (if is_retryable(error) {
        " (retryable)"@
    } else {
        Seq::empty()
    })
}

impl OpenAiSession {
    /// A response of which nothing came in yet.
    pub fn new() -> (r: OpenAiSession)
        ensures
            r.state@ == openai_stream::fresh_state(),
            r.buffer@ == (LineState {
                pending: Seq::empty(),
                max: sse::DEFAULT_MAX_LINE_LENGTH as nat,
                exceeded: false,
                skipping: false,
            }),
            r.first_byte is None,
    {
        OpenAiSession {
            buffer: SseLineBuffer::default(),
            state: OpenAiStreamDeltaState::default(),
            first_byte: None,
        }
    }

    /// How long to wait for the next event: for the first byte, or between bytes.
    pub fn patience(&self, first_byte_timeout: u64, inactivity_timeout: u64) -> (r: u64)
        ensures
            r == (if self.first_byte is Some {
                inactivity_timeout
            } else {
                first_byte_timeout
            }),
    {
        if self.first_byte.is_some() {
            inactivity_timeout
        } else {
            first_byte_timeout
        }
    }

    /// Takes an event in, `elapsed` milliseconds after the stream began and with a
    /// patience of `timeout` milliseconds.
    pub fn step(
        &mut self,
        event: &StreamEvent,
        elapsed: u64,
        timeout: u64,
        headers: &Vec<Header>,
        model_info: &Option<OpenAiCompatibleModelInfo>,
        room: usize,
        out: &mut Vec<ApiStreamChunk>,
    ) -> (r: NextStep)
        ensures
            ({
                let notes = diagnostics(headers@, elapsed, old(self).first_byte);
                match *event {
                    StreamEvent::Bytes(b) => {
                        &&& r == NextStep::Continue
                        &&& final(self).first_byte == (if b@.len() > 0 && old(self).first_byte is None {
                            Some(elapsed)
                        } else {
                            old(self).first_byte
                        })
                        &&& final(self).buffer@ == sse::buffer_after(
                            old(self).buffer@,
                            b@,
                        )
                        &&& openai_stream::progress(final(self).state@, final(out)@)
                            == openai_stream::progress(old(self).state@, old(out)@).bytes(
                            old(self).buffer@,
                            b@,
                            openai_stream::opt_model(*model_info),
                            room,
                        )
                    },
                    StreamEvent::Ended => {
                        &&& r == NextStep::Finish
                        &&& *final(self) == *old(self)
                        &&& final(out)@ == old(out)@
                    },
                    StreamEvent::Closed => {
                        &&& r == NextStep::Stop
                        &&& *final(self) == *old(self)
                        &&& final(out)@ == old(out)@
                    },
                    StreamEvent::TimedOut => {
                        &&& r == NextStep::Stop
                        &&& *final(self) == *old(self)
                        &&& types::chunks(final(out)@) == types::chunks(old(out)@).push(
                            Chunk::Error(timeout_report(old(self).first_byte, timeout, notes)),
                        )
                    },
                    StreamEvent::Failed(e) => {
                        &&& r == NextStep::Stop
                        &&& *final(self) == *old(self)
                        &&& types::chunks(final(out)@) == types::chunks(old(out)@).push(
                            Chunk::Error(failure_report(e@, notes)),
                        )
                    },
                }
            }),
    {
        match event {
            StreamEvent::Bytes(b) => {
                if b.len() > 0 && self.first_byte.is_none() {
                    self.first_byte = Some(elapsed);
                }
                openai_stream::parse_openai_sse_to_chunks(
                    b.as_slice(),
                    &mut self.buffer,
                    &mut self.state,
                    model_info,
                    room,
                    out,
                );
                NextStep::Continue
            },
            StreamEvent::Ended => NextStep::Finish,
            StreamEvent::Closed => NextStep::Stop,
            StreamEvent::TimedOut => {
                let notes = format_stream_error_diagnostics(headers, elapsed, self.first_byte);
                let mut m = "OpenAI SSE ".to_owned();
                if self.first_byte.is_some() {
                    text::push_text(&mut m, "inactivity");
                } else {
                    text::push_text(&mut m, "first byte");
                }
                text::push_text(&mut m, " timeout after ");
                let n = text::number_text(timeout);
                text::push_text(&mut m, n.as_str());
                text::push_text(&mut m, "ms; diagnostics: ");
                text::push_text(&mut m, notes.as_str());
                text::push_text(&mut m, " (retryable)");
                types::emit_error(out, m.as_str());
                NextStep::Stop
            },
            StreamEvent::Failed(e) => {
                let notes = format_stream_error_diagnostics(headers, elapsed, self.first_byte);
                let mut m = "OpenAI SSE stream error: ".to_owned();
                text::push_text(&mut m, e.as_str());
                text::push_text(&mut m, "; diagnostics: ");
                text::push_text(&mut m, notes.as_str());
                if is_retryable_stream_transport_error(e.as_str()) {
                    text::push_text(&mut m, " (retryable)");
                }
                assert(m@ =~= failure_report(e@, notes@));
                types::emit_error(out, m.as_str());
                NextStep::Stop
            },
        }
    }

    /// Ends the response.
    pub fn finish(
        &mut self,
        model_info: &Option<OpenAiCompatibleModelInfo>,
        room: usize,
        out: &mut Vec<ApiStreamChunk>,
    )
        ensures
            final(self).buffer@ == sse::emptied(old(self).buffer@),
            final(self).first_byte == old(self).first_byte,
            openai_stream::progress(final(self).state@, final(out)@) == openai_stream::progress(
                old(self).state@,
                old(out)@,
            ).finish(old(self).buffer@, openai_stream::opt_model(*model_info), room),
    {
        openai_stream::finish_openai_sse_to_chunks(
            &mut self.buffer,
            &mut self.state,
            model_info,
            room,
            out,
        );
    }
}

} // verus!
