//! What holds of every request.

use crate::json;
use crate::json::Tree;
use crate::providers::anthropic;
use crate::providers::chat_format;
use crate::providers::minimax;
use crate::providers::openai;
use crate::providers::openai::OpenAiConfig;
use crate::providers::types::{
    AssistantContentBlock, MessageContent, Model, ProviderRequest, StorageMessage, ToolDefinition,
    UserContentBlock,
};
use crate::text;
use vstd::prelude::*;

verus! {

/// A message has a content, and it is not null.
pub open spec fn has_content(m: Tree) -> bool {
    match m.get("content"@) {
        Some(c) => !(c is Null),
        None => false,
    }
}

/// No message of a request to MiniMax has a content that is null or missing.
pub proof fn law_minimax_contents_are_never_null(r: ProviderRequest, i: int)
    requires
        0 <= i < minimax::body_messages(r).len(),
    ensures
        has_content(minimax::body_messages(r)[i]),
{
    lemma_history_has_content(r.messages@);
    lemma_message_has_content("system"@, Tree::Str(r.system_prompt@));
    let head = if r.system_prompt@.len() > 0 {
        seq![chat_format::message("system"@, Tree::Str(r.system_prompt@))]
    } else {
        Seq::empty()
    };
    if i >= head.len() {
        assert(minimax::body_messages(r)[i] == minimax::history(r.messages@)[i - head.len()]);
    }
}

proof fn lemma_message_has_content(role: Seq<char>, content: Tree)
    requires
        !(content is Null),
    ensures
        chat_format::message(role, content) is Obj,
        has_content(chat_format::message(role, content)),
{
    let a = json::empty_obj().put("role"@, Tree::Str(role));
    json::law_put_then_get(json::empty_obj(), "role"@, Tree::Str(role), "content"@);
    json::law_put_then_get(a, "content"@, content, "content"@);
}

proof fn lemma_history_has_content(v: Seq<StorageMessage>)
    ensures
        forall|i: int|
            0 <= i < minimax::history(v).len() ==> has_content(#[trigger] minimax::history(v)[i]),
    decreases v.len(),
{
    if v.len() > 0 {
        let p = v.drop_last();
        lemma_history_has_content(p);
        lemma_turn_has_content(v.last());
        let rest = minimax::history(p);
        let own = minimax::turn_messages(v.last());
        assert forall|i: int| 0 <= i < minimax::history(v).len() implies has_content(
            #[trigger] minimax::history(v)[i],
        ) by {
            if i < rest.len() {
                assert(minimax::history(v)[i] == rest[i]);
            } else {
                assert(minimax::history(v)[i] == own[i - rest.len()]);
            }
        }
    }
}

proof fn lemma_turn_has_content(m: StorageMessage)
    ensures
        forall|i: int|
            0 <= i < minimax::turn_messages(m).len() ==> has_content(
                #[trigger] minimax::turn_messages(m)[i],
            ),
{
    let role = chat_format::role_name(m.role);
    match m.content {
        MessageContent::Text(t) => {
            lemma_message_has_content(role, Tree::Str(t@));
        },
        MessageContent::UserBlocks(b) => {
            lemma_user_messages_have_content(role, b@);
        },
        MessageContent::AssistantBlocks(b) => {
            lemma_assistant_message_has_content(role, b@);
        },
    }
}

proof fn lemma_assistant_message_has_content(role: Seq<char>, blocks: Seq<AssistantContentBlock>)
    ensures
        has_content(minimax::assistant_message(role, blocks)),
{
    reveal_strlit("content");
    reveal_strlit("tool_calls");
    reveal_strlit("reasoning_details");
    assert("content"@.len() == 7);
    assert("tool_calls"@.len() == 10);
    assert("reasoning_details"@.len() == 17);
    let base = chat_format::message(role, Tree::Str(minimax::turn_text(blocks)));
    lemma_message_has_content(role, Tree::Str(minimax::turn_text(blocks)));
    let calls = Tree::Arr(minimax::turn_calls(blocks));
    json::law_put_then_get(base, "tool_calls"@, calls, "content"@);
    let with_calls = if minimax::turn_calls(blocks).len() > 0 {
        base.put("tool_calls"@, calls)
    } else {
        base
    };
    json::law_put_then_get(
        with_calls,
        "reasoning_details"@,
        Tree::Arr(minimax::turn_details(blocks)),
        "content"@,
    );
}

proof fn lemma_user_messages_have_content(role: Seq<char>, blocks: Seq<UserContentBlock>)
    ensures
        forall|i: int|
            0 <= i < chat_format::user_messages(role, blocks, false, false).len() ==> has_content(
                #[trigger] chat_format::user_messages(role, blocks, false, false)[i],
            ),
{
    let all = chat_format::user_messages(role, blocks, false, false);
    if blocks.len() == 1 && blocks[0] is Text {
        lemma_message_has_content(role, Tree::Str(blocks[0]->Text_0.text@));
    } else {
        let parts = chat_format::user_parts(blocks, false);
        lemma_message_has_content(role, Tree::Arr(parts));
        lemma_tool_messages_have_content(blocks);
        let results = chat_format::tool_messages(blocks);
        assert forall|i: int| 0 <= i < all.len() implies has_content(#[trigger] all[i]) by {
            if parts.len() == 0 {
                assert(all[i] == results[i]);
            } else if i > 0 {
                assert(all[i] == results[i - 1]);
            }
        }
    }
}

proof fn lemma_tool_messages_have_content(blocks: Seq<UserContentBlock>)
    ensures
        forall|i: int|
            0 <= i < chat_format::tool_messages(blocks).len() ==> has_content(
                #[trigger] chat_format::tool_messages(blocks)[i],
            ),
    decreases blocks.len(),
{
    if blocks.len() > 0 {
        lemma_tool_messages_have_content(blocks.drop_last());
        let rest = chat_format::tool_messages(blocks.drop_last());
        let all = chat_format::tool_messages(blocks);
        if let UserContentBlock::ToolResult(r) = blocks.last() {
            let a = json::empty_obj().put("role"@, Tree::Str("tool"@));
            let b = a.put("tool_call_id"@, Tree::Str(r.tool_use_id@));
            json::law_put_then_get(json::empty_obj(), "role"@, Tree::Str("tool"@), "role"@);
            json::law_put_then_get(a, "tool_call_id"@, Tree::Str(r.tool_use_id@), "role"@);
            json::law_put_then_get(
                b,
                "content"@,
                Tree::Str(chat_format::result_text(r.content)),
                "content"@,
            );
        }
        assert forall|i: int| 0 <= i < all.len() implies has_content(#[trigger] all[i]) by {
            if i < rest.len() {
                assert(all[i] == rest[i]);
            }
        }
    }
}

/// Every request to MiniMax asks for a stream and for reasoning apart from the answer, at the top of
/// its body, and says nothing of `max_tokens` or `extra_body`, which that endpoint does not
/// take.
pub proof fn law_minimax_request_shape(model_id: Seq<char>, r: ProviderRequest)
    ensures
        minimax::request_body(model_id, r).get("stream"@) == Some(Tree::Bool(true)),
        minimax::request_body(model_id, r).get("reasoning_split"@) == Some(Tree::Bool(true)),
        minimax::request_body(model_id, r).get("messages"@) == Some(
            Tree::Arr(minimax::body_messages(r)),
        ),
        minimax::request_body(model_id, r).get("max_tokens"@) is None,
        minimax::request_body(model_id, r).get("extra_body"@) is None,
{
    let m = minimax::minimax_model(model_id);
    lemma_keys();
    let e = json::empty_obj();
    let a1 = e.put("model"@, Tree::Str(model_id));
    lemma_put(e, "model"@, Tree::Str(model_id));
    let a2 = a1.put("messages"@, Tree::Arr(minimax::body_messages(r)));
    lemma_put(a1, "messages"@, Tree::Arr(minimax::body_messages(r)));
    let a = a2.put("stream"@, Tree::Bool(true));
    lemma_put(a2, "stream"@, Tree::Bool(true));
    let limit = minimax::limit_tree(r.max_tokens, m.max_tokens);
    let b = minimax::put_opt(a, "max_completion_tokens"@, limit);
    lemma_put_opt(a, "max_completion_tokens"@, limit);
    let c = minimax::put_opt(b, "temperature"@, minimax::micro_tree(m.temperature));
    lemma_put_opt(b, "temperature"@, minimax::micro_tree(m.temperature));
    let d = minimax::put_opt(c, "top_p"@, minimax::micro_tree(m.top_p));
    lemma_put_opt(c, "top_p"@, minimax::micro_tree(m.top_p));
    let top_k = match m.top_k {
        Some(k) => Some(Tree::Int(k as int)),
        None => None,
    };
    let f = minimax::put_opt(d, "top_k"@, top_k);
    lemma_put_opt(d, "top_k"@, top_k);
    let g = match r.tools {
        Some(v) => if v@.len() > 0 {
            f.put("tools"@, chat_format::tools_tree(v@)).put(
                "tool_choice"@,
                chat_format::tool_choice_tree(r.tool_choice),
            )
        } else {
            f
        },
        None => f,
    };
    if let Some(v) = r.tools {
        lemma_put(f, "tools"@, chat_format::tools_tree(v@));
        lemma_put(
            f.put("tools"@, chat_format::tools_tree(v@)),
            "tool_choice"@,
            chat_format::tool_choice_tree(r.tool_choice),
        );
    }
    lemma_put(g, "reasoning_split"@, Tree::Bool(true));
}

/// The keys of a request to MiniMax are told apart by their lengths or by a letter.
proof fn lemma_keys()
    ensures
        "model"@.len() == 5,
        "messages"@.len() == 8,
        "stream"@.len() == 6,
        "max_completion_tokens"@.len() == 21,
        "temperature"@.len() == 11,
        "tool_choice"@.len() == 11,
        "top_p"@.len() == 5,
        "top_k"@.len() == 5,
        "tools"@.len() == 5,
        "reasoning_split"@.len() == 15,
        "max_tokens"@.len() == 10,
        "extra_body"@.len() == 10,
        "max_tokens"@[0] == 'm',
        "extra_body"@[0] == 'e',
{
    reveal_strlit("model");
    reveal_strlit("messages");
    reveal_strlit("stream");
    reveal_strlit("max_completion_tokens");
    reveal_strlit("temperature");
    reveal_strlit("tool_choice");
    reveal_strlit("top_p");
    reveal_strlit("top_k");
    reveal_strlit("tools");
    reveal_strlit("reasoning_split");
    reveal_strlit("max_tokens");
    reveal_strlit("extra_body");
}

proof fn lemma_put(t: Tree, key: Seq<char>, v: Tree)
    requires
        t is Obj,
    ensures
        t.put(key, v) is Obj,
        t.put(key, v).get(key) == Some(v),
        key != "stream"@ ==> t.put(key, v).get("stream"@) == t.get("stream"@),
        key != "messages"@ ==> t.put(key, v).get("messages"@) == t.get("messages"@),
        key != "max_tokens"@ ==> t.put(key, v).get("max_tokens"@) == t.get("max_tokens"@),
        key != "extra_body"@ ==> t.put(key, v).get("extra_body"@) == t.get("extra_body"@),
{
    json::law_put_then_get(t, key, v, "stream"@);
    json::law_put_then_get(t, key, v, "messages"@);
    json::law_put_then_get(t, key, v, "max_tokens"@);
    json::law_put_then_get(t, key, v, "extra_body"@);
}

proof fn lemma_put_opt(t: Tree, key: Seq<char>, v: Option<Tree>)
    requires
        t is Obj,
        key != "stream"@,
        key != "messages"@,
        key != "max_tokens"@,
        key != "extra_body"@,
    ensures
        minimax::put_opt(t, key, v) is Obj,
        minimax::put_opt(t, key, v).get("stream"@) == t.get("stream"@),
        minimax::put_opt(t, key, v).get("messages"@) == t.get("messages"@),
        minimax::put_opt(t, key, v).get("max_tokens"@) == t.get("max_tokens"@),
        minimax::put_opt(t, key, v).get("extra_body"@) == t.get("extra_body"@),
{
    if let Some(x) = v {
        lemma_put(t, key, x);
    }
}

/// A request to an official reasoning model says nothing of a temperature or of
/// `max_tokens`, which those models do not take; any other request says nothing of
/// `max_completion_tokens`. What the configuration adds under these keys is its own affair.
pub proof fn law_openai_request_shape(c: OpenAiConfig, sort: Option<String>, r: ProviderRequest)
    ensures
        ({
            let b = openai::core_body(c, sort, r);
            if openai::reasoning_shape(c.endpoint_kind, c.model_id@) {
                b.get("temperature"@) is None && b.get("max_tokens"@) is None
            } else {
                b.get("max_completion_tokens"@) is None
            }
        }),
{
    lemma_openai_keys();
    let shape = openai::reasoning_shape(c.endpoint_kind, c.model_id@);
    let messages = Tree::Arr(openai::body_messages(shape, r));
    let e = json::empty_obj();
    let a1 = e.put("model"@, Tree::Str(c.model_id@));
    lemma_openai_put(e, "model"@, Tree::Str(c.model_id@));
    let a2 = a1.put("messages"@, messages);
    lemma_openai_put(a1, "messages"@, messages);
    let a = a2.put("stream"@, Tree::Bool(c.stream));
    lemma_openai_put(a2, "stream"@, Tree::Bool(c.stream));
    let options = json::empty_obj().put("include_usage"@, Tree::Bool(true));
    lemma_openai_put(a, "stream_options"@, options);
    let b = if c.stream {
        a.put("stream_options"@, options)
    } else {
        a
    };
    let d = match sort {
        Some(s) => b.put("provider"@, json::empty_obj().put("sort"@, Tree::Str(s@))),
        None => b,
    };
    if let Some(s) = sort {
        lemma_openai_put(b, "provider"@, json::empty_obj().put("sort"@, Tree::Str(s@)));
    }
    let temperature = match c.model_info {
        Some(m) => m.base.temperature,
        None => None,
    };
    let warm = Tree::Real(text::micro_decimal(temperature->0 as nat));
    lemma_openai_put(d, "temperature"@, warm);
    let f = if !shape && temperature is Some && temperature->0 != 0 {
        d.put("temperature"@, warm)
    } else {
        d
    };
    let known_limit = match c.model_info {
        Some(m) => m.base.max_tokens,
        None => None,
    };
    let limit = minimax::limit_tree(r.max_tokens, known_limit);
    let key = if shape {
        "max_completion_tokens"@
    } else {
        "max_tokens"@
    };
    if let Some(n) = limit {
        lemma_openai_put(f, key, n);
    }
    let g = minimax::put_opt(f, key, limit);
    let effort = openai::opt_text_tree(c.reasoning_effort);
    if let Some(t) = effort {
        lemma_openai_put(g, "reasoning_effort"@, t);
    }
    let h = minimax::put_opt(g, "reasoning_effort"@, effort);
    if let Some(v) = r.tools {
        lemma_openai_put(h, "tools"@, chat_format::tools_tree(v@));
        lemma_openai_put(
            h.put("tools"@, chat_format::tools_tree(v@)),
            "tool_choice"@,
            chat_format::tool_choice_tree(r.tool_choice),
        );
    }
}

/// The keys of a request to OpenAI are told apart by their lengths or by a letter.
proof fn lemma_openai_keys()
    ensures
        "model"@.len() == 5,
        "messages"@.len() == 8,
        "stream"@.len() == 6,
        "stream_options"@.len() == 14,
        "provider"@.len() == 8,
        "temperature"@.len() == 11,
        "tool_choice"@.len() == 11,
        "tools"@.len() == 5,
        "reasoning_effort"@.len() == 16,
        "max_completion_tokens"@.len() == 21,
        "max_tokens"@.len() == 10,
        "temperature"@[1] == 'e',
        "tool_choice"@[1] == 'o',
{
    reveal_strlit("model");
    reveal_strlit("messages");
    reveal_strlit("stream");
    reveal_strlit("stream_options");
    reveal_strlit("provider");
    reveal_strlit("temperature");
    reveal_strlit("tool_choice");
    reveal_strlit("tools");
    reveal_strlit("reasoning_effort");
    reveal_strlit("max_completion_tokens");
    reveal_strlit("max_tokens");
}

proof fn lemma_openai_put(t: Tree, key: Seq<char>, v: Tree)
    requires
        t is Obj,
    ensures
        t.put(key, v) is Obj,
        key != "temperature"@ ==> t.put(key, v).get("temperature"@) == t.get("temperature"@),
        key != "max_tokens"@ ==> t.put(key, v).get("max_tokens"@) == t.get("max_tokens"@),
        key != "max_completion_tokens"@ ==> t.put(key, v).get("max_completion_tokens"@) == t.get(
            "max_completion_tokens"@,
        ),
{
    json::law_put_then_get(t, key, v, "temperature"@);
    json::law_put_then_get(t, key, v, "max_tokens"@);
    json::law_put_then_get(t, key, v, "max_completion_tokens"@);
}

/// A request to Anthropic either thinks or has a temperature, never both; and it names
/// tools exactly where it is given some.
pub proof fn law_anthropic_request_shape(
    id: Seq<char>,
    m: Model,
    budget: u32,
    r: ProviderRequest,
)
    ensures
        ({
            let b = anthropic::request_body(id, m, budget, r);
            &&& b.get("thinking"@) is Some <==> b.get("temperature"@) is None
            &&& b.get("thinking"@) is Some <==> m.supports_reasoning == Some(true) && budget != 0
            &&& b.get("tools"@) is Some <==> (r.tools matches Some(v) && v@.len() > 0)
        }),
{
    lemma_anthropic_keys();
    let caches = m.supports_prompt_cache;
    let model_id = anthropic::sanitized(id);
    let reasons = m.supports_reasoning == Some(true) && budget != 0;
    let e = json::empty_obj();
    let limit = Tree::Int(anthropic::answer_limit(r.max_tokens, m.max_tokens) as int);
    let system = Tree::Arr(anthropic::system_content(r.system_prompt@, caches));
    let messages = Tree::Arr(anthropic::body_messages(r.messages@, caches));
    let a1 = e.put("model"@, Tree::Str(model_id));
    lemma_anthropic_put(e, "model"@, Tree::Str(model_id));
    let a2 = a1.put("max_tokens"@, limit);
    lemma_anthropic_put(a1, "max_tokens"@, limit);
    let a3 = a2.put("system"@, system);
    lemma_anthropic_put(a2, "system"@, system);
    let a4 = a3.put("messages"@, messages);
    lemma_anthropic_put(a3, "messages"@, messages);
    let a = a4.put("stream"@, Tree::Bool(true));
    lemma_anthropic_put(a4, "stream"@, Tree::Bool(true));
    lemma_anthropic_put(a, "temperature"@, Tree::Int(0));
    let b = if !reasons {
        a.put("temperature"@, Tree::Int(0))
    } else {
        a
    };
    lemma_anthropic_put(b, "speed"@, Tree::Str("fast"@));
    let c = if anthropic::wants_fast(id) {
        b.put("speed"@, Tree::Str("fast"@))
    } else {
        b
    };
    let thinking = json::empty_obj().put(
        "type"@,
        Tree::Str(
            if text::has(model_id, "opus-4-7"@) || text::has(model_id, "opus-4.7"@) {
                "adaptive"@
            } else {
                "enabled"@
            },
        ),
    ).put("budget_tokens"@, Tree::Int(budget as int));
    lemma_anthropic_put(c, "thinking"@, thinking);
    let d = if reasons {
        c.put("thinking"@, thinking)
    } else {
        c
    };
    if let Some(v) = r.tools {
        let tools = Tree::Arr(v@.map_values(|t: ToolDefinition| anthropic::tool_tree(t)));
        lemma_anthropic_put(d, "tools"@, tools);
        lemma_anthropic_put(
            d.put("tools"@, tools),
            "tool_choice"@,
            anthropic::choice_tree(r.tool_choice),
        );
    }
}

/// The keys of a request to Anthropic are told apart by their lengths or by a letter.
proof fn lemma_anthropic_keys()
    ensures
        "model"@.len() == 5,
        "max_tokens"@.len() == 10,
        "system"@.len() == 6,
        "messages"@.len() == 8,
        "stream"@.len() == 6,
        "temperature"@.len() == 11,
        "tool_choice"@.len() == 11,
        "speed"@.len() == 5,
        "thinking"@.len() == 8,
        "tools"@.len() == 5,
        "temperature"@[1] == 'e',
        "tool_choice"@[1] == 'o',
        "messages"@[0] == 'm',
        "thinking"@[0] == 't',
        "model"@[0] == 'm',
        "speed"@[0] == 's',
        "tools"@[0] == 't',
{
    reveal_strlit("model");
    reveal_strlit("max_tokens");
    reveal_strlit("system");
    reveal_strlit("messages");
    reveal_strlit("stream");
    reveal_strlit("temperature");
    reveal_strlit("tool_choice");
    reveal_strlit("speed");
    reveal_strlit("thinking");
    reveal_strlit("tools");
}

proof fn lemma_anthropic_put(t: Tree, key: Seq<char>, v: Tree)
    requires
        t is Obj,
    ensures
        t.put(key, v) is Obj,
        t.put(key, v).get(key) == Some(v),
        key != "temperature"@ ==> t.put(key, v).get("temperature"@) == t.get("temperature"@),
        key != "thinking"@ ==> t.put(key, v).get("thinking"@) == t.get("thinking"@),
        key != "tools"@ ==> t.put(key, v).get("tools"@) == t.get("tools"@),
{
    json::law_put_then_get(t, key, v, "temperature"@);
    json::law_put_then_get(t, key, v, "thinking"@);
    json::law_put_then_get(t, key, v, "tools"@);
}

} // verus!
