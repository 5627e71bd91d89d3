//! What a request asks for: the model, the whole conversation, the system prompt, the tools
//! and the limit that it was given.

use crate::json;
use crate::json::Tree;
use crate::providers::anthropic;
use crate::providers::chat_format;
use crate::providers::conversation_laws;
use crate::providers::conversation_laws::has_text;
use crate::providers::gemini;
use crate::providers::gemini::{GeminiThinkingLevel, Settings};
use crate::providers::gemini_format;
use crate::providers::minimax;
use crate::providers::openai;
use crate::providers::openai::OpenAiConfig;
use crate::providers::types::{Model, ProviderRequest, ToolChoice, ToolDefinition};
use crate::text;
use vstd::prelude::*;

verus! {

/// A member that is put is there, and leaves the others as they are.
pub proof fn lemma_put(t: Tree, key: Seq<char>, v: Tree)
    requires
        t is Obj,
    ensures
        t.put(key, v) is Obj,
        t.put(key, v).get(key) == Some(v),
        forall|other: Seq<char>|
            other != key ==> #[trigger] t.put(key, v).get(other) == t.get(other),
{
    json::law_put_then_get(t, key, v, key);
    assert forall|other: Seq<char>| other != key implies #[trigger] t.put(key, v).get(other)
        == t.get(other) by {
        json::law_put_then_get(t, key, v, other);
    }
}

proof fn lemma_put_opt(t: Tree, key: Seq<char>, v: Option<Tree>)
    requires
        t is Obj,
    ensures
        ({
            let o = minimax::put_opt(t, key, v);
            &&& o is Obj
            &&& v is Some ==> o.get(key) == v
            &&& v is None ==> o == t
            &&& forall|other: Seq<char>| other != key ==> #[trigger] o.get(other) == t.get(other)
        }),
{
    if let Some(x) = v {
        lemma_put(t, key, x);
    }
}

/// The keys of request bodies differ.
proof fn lemma_keys()
    ensures
        "model"@.len() == 5 && "model"@[0] == 'm',
        "speed"@.len() == 5 && "speed"@[0] == 's',
        "tools"@.len() == 5 && "tools"@[0] == 't' && "tools"@[2] == 'o',
        "top_p"@.len() == 5 && "top_p"@[0] == 't' && "top_p"@[2] == 'p' && "top_p"@[4] == 'p',
        "top_k"@.len() == 5 && "top_k"@[0] == 't' && "top_k"@[2] == 'p' && "top_k"@[4] == 'k',
        "stream"@.len() == 6 && "stream"@[1] == 't',
        "system"@.len() == 6 && "system"@[1] == 'y',
        "messages"@.len() == 8 && "messages"@[0] == 'm',
        "provider"@.len() == 8 && "provider"@[0] == 'p',
        "thinking"@.len() == 8 && "thinking"@[0] == 't',
        "contents"@.len() == 8 && "contents"@[0] == 'c',
        "max_tokens"@.len() == 10 && "max_tokens"@[0] == 'm',
        "toolConfig"@.len() == 10 && "toolConfig"@[0] == 't',
        "temperature"@.len() == 11 && "temperature"@[1] == 'e',
        "tool_choice"@.len() == 11 && "tool_choice"@[1] == 'o',
        "stream_options"@.len() == 14,
        "reasoning_split"@.len() == 15,
        "reasoning_effort"@.len() == 16 && "reasoning_effort"@[0] == 'r',
        "generationConfig"@.len() == 16 && "generationConfig"@[0] == 'g',
        "systemInstruction"@.len() == 17,
        "max_completion_tokens"@.len() == 21,
        "topP"@.len() == 4,
        "maxOutputTokens"@.len() == 15,
        "thinkingConfig"@.len() == 14,
        "includeServerSideToolInvocations"@.len() == 32,
{
    reveal_strlit("model");
    reveal_strlit("speed");
    reveal_strlit("tools");
    reveal_strlit("top_p");
    reveal_strlit("top_k");
    reveal_strlit("stream");
    reveal_strlit("system");
    reveal_strlit("messages");
    reveal_strlit("provider");
    reveal_strlit("thinking");
    reveal_strlit("contents");
    reveal_strlit("max_tokens");
    reveal_strlit("toolConfig");
    reveal_strlit("temperature");
    reveal_strlit("tool_choice");
    reveal_strlit("stream_options");
    reveal_strlit("reasoning_split");
    reveal_strlit("reasoning_effort");
    reveal_strlit("generationConfig");
    reveal_strlit("systemInstruction");
    reveal_strlit("max_completion_tokens");
    reveal_strlit("topP");
    reveal_strlit("maxOutputTokens");
    reveal_strlit("thinkingConfig");
    reveal_strlit("includeServerSideToolInvocations");
}

/// A request to an OpenAI endpoint names the model, holds the messages, streams as it is
/// configured and then asks for token counts, asks for the limit that it was given, and
/// offers the tools with the choice among them.
pub proof fn law_openai_body_asks(c: OpenAiConfig, sort: Option<String>, r: ProviderRequest)
    ensures
        ({
            let b = openai::core_body(c, sort, r);
            let shape = openai::reasoning_shape(c.endpoint_kind, c.model_id@);
            let limit = if shape {
                "max_completion_tokens"@
            } else {
                "max_tokens"@
            };
            &&& has_text(b, "model"@, c.model_id@)
            &&& b.get("messages"@) == Some(Tree::Arr(openai::body_messages(shape, r)))
            &&& b.get("stream"@) == Some(Tree::Bool(c.stream))
            &&& c.stream ==> b.get("stream_options"@) is Some && b.get("stream_options"@)->0.get(
                "include_usage"@,
            ) == Some(Tree::Bool(true))
            &&& !c.stream ==> b.get("stream_options"@) is None
            &&& r.max_tokens is Some && r.max_tokens->0 > 0 ==> b.get(limit) == Some(
                Tree::Int(r.max_tokens->0 as int),
            )
            &&& c.reasoning_effort is Some ==> has_text(
                b,
                "reasoning_effort"@,
                c.reasoning_effort->0@,
            )
            &&& r.tools is Some ==> b.get("tools"@) == Some(chat_format::tools_tree(r.tools->0@))
                && b.get("tool_choice"@) == Some(chat_format::tool_choice_tree(r.tool_choice))
            &&& r.tools is None ==> b.get("tools"@) is None && b.get("tool_choice"@) is None
        }),
{
    lemma_keys();
    let shape = openai::reasoning_shape(c.endpoint_kind, c.model_id@);
    let messages = Tree::Arr(openai::body_messages(shape, r));
    let e = json::empty_obj();
    let a1 = e.put("model"@, Tree::Str(c.model_id@));
    lemma_put(e, "model"@, Tree::Str(c.model_id@));
    let a2 = a1.put("messages"@, messages);
    lemma_put(a1, "messages"@, messages);
    let a = a2.put("stream"@, Tree::Bool(c.stream));
    lemma_put(a2, "stream"@, Tree::Bool(c.stream));
    let options = json::empty_obj().put("include_usage"@, Tree::Bool(true));
    lemma_put(json::empty_obj(), "include_usage"@, Tree::Bool(true));
    lemma_put(a, "stream_options"@, options);
    let b = if c.stream {
        a.put("stream_options"@, options)
    } else {
        a
    };
    let d = match sort {
        Some(s) => b.put("provider"@, json::empty_obj().put("sort"@, Tree::Str(s@))),
        None => b,
    };
    if let Some(s) = sort {
        lemma_put(b, "provider"@, json::empty_obj().put("sort"@, Tree::Str(s@)));
    }
    let temperature = match c.model_info {
        Some(m) => m.base.temperature,
        None => None,
    };
    let warm = Tree::Real(text::micro_decimal(temperature->0 as nat));
    lemma_put(d, "temperature"@, warm);
    let f = if !shape && temperature is Some && temperature->0 != 0 {
        d.put("temperature"@, warm)
    } else {
        d
    };
    let known_limit = match c.model_info {
        Some(m) => m.base.max_tokens,
        None => None,
    };
    let key = if shape {
        "max_completion_tokens"@
    } else {
        "max_tokens"@
    };
    let limit = minimax::limit_tree(r.max_tokens, known_limit);
    let g = minimax::put_opt(f, key, limit);
    lemma_put_opt(f, key, limit);
    let effort = openai::opt_text_tree(c.reasoning_effort);
    let h = minimax::put_opt(g, "reasoning_effort"@, effort);
    lemma_put_opt(g, "reasoning_effort"@, effort);
    if let Some(v) = r.tools {
        let i = h.put("tools"@, chat_format::tools_tree(v@));
        lemma_put(h, "tools"@, chat_format::tools_tree(v@));
        lemma_put(i, "tool_choice"@, chat_format::tool_choice_tree(r.tool_choice));
    }
    assert(json::empty_obj().get("tools"@) is None);
    assert(json::empty_obj().get("tool_choice"@) is None);
    assert(json::empty_obj().get("stream_options"@) is None);
}

/// The messages of a request to an OpenAI endpoint: the system prompt first, then the
/// history in order; a history without a user message is asked to proceed.
pub proof fn law_openai_messages_are_the_conversation(shape: bool, r: ProviderRequest, i: int)
    requires
        0 <= i < openai::raw_history(r.messages@).len(),
    ensures
        ({
            let ms = openai::body_messages(shape, r);
            let raw = openai::raw_history(r.messages@);
            &&& ms.len() == raw.len() + 1 || (ms.len() == raw.len() + 2 && has_text(
                ms.last(),
                "role"@,
                "user"@,
            ))
            &&& has_text(ms[0], "content"@, r.system_prompt@)
            &&& shape ==> has_text(ms[0], "role"@, "developer"@)
            &&& !shape ==> has_text(ms[0], "role"@, "system"@)
            &&& ms[i + 1] == openai::sent_message(raw[i])
            &&& raw[i].get("role"@) != Some(Tree::Str("assistant"@)) ==> ms[i + 1] == raw[i]
            &&& raw[i].get("content"@) is Some && raw[i].get("content"@)->0 is Str ==> ms[i + 1]
                == raw[i]
        }),
{
    conversation_laws::lemma_keys();
    let role = if shape {
        "developer"@
    } else {
        "system"@
    };
    let raw = openai::raw_history(r.messages@);
    let first = chat_format::message(role, Tree::Str(r.system_prompt@));
    let all = openai::with_user(seq![first] + raw);
    let ms = openai::body_messages(shape, r);
    conversation_laws::lemma_two("role"@, Tree::Str(role), "content"@, Tree::Str(r.system_prompt@));
    conversation_laws::lemma_two(
        "role"@,
        Tree::Str("user"@),
        "content"@,
        Tree::Str("Please proceed."@),
    );
    assert(all[0] == first);
    assert(all[i + 1] == raw[i]);
    assert(ms[0] == openai::sent_message(first));
    assert(ms[i + 1] == openai::sent_message(raw[i]));
    if ms.len() == raw.len() + 2 {
        assert(ms.last() == openai::sent_message(all[all.len() - 1]));
    }
}

/// A request to MiniMax names the model, holds the messages, asks for the limit that it was
/// given, and offers the tools with the choice among them.
pub proof fn law_minimax_body_asks(model_id: Seq<char>, r: ProviderRequest)
    ensures
        ({
            let b = minimax::request_body(model_id, r);
            &&& has_text(b, "model"@, model_id)
            &&& b.get("messages"@) == Some(Tree::Arr(minimax::body_messages(r)))
            &&& r.max_tokens is Some && r.max_tokens->0 > 0 ==> b.get("max_completion_tokens"@)
                == Some(Tree::Int(r.max_tokens->0 as int))
            &&& r.tools is Some && r.tools->0@.len() > 0 ==> b.get("tools"@) == Some(
                chat_format::tools_tree(r.tools->0@),
            ) && b.get("tool_choice"@) == Some(chat_format::tool_choice_tree(r.tool_choice))
            &&& r.tools is None || r.tools->0@.len() == 0 ==> b.get("tools"@) is None && b.get(
                "tool_choice"@,
            ) is None
        }),
{
    lemma_keys();
    let m = minimax::minimax_model(model_id);
    let e = json::empty_obj();
    let a1 = e.put("model"@, Tree::Str(model_id));
    lemma_put(e, "model"@, Tree::Str(model_id));
    let a2 = a1.put("messages"@, Tree::Arr(minimax::body_messages(r)));
    lemma_put(a1, "messages"@, Tree::Arr(minimax::body_messages(r)));
    let a = a2.put("stream"@, Tree::Bool(true));
    lemma_put(a2, "stream"@, Tree::Bool(true));
    let limit = minimax::limit_tree(r.max_tokens, m.max_tokens);
    let b = minimax::put_opt(a, "max_completion_tokens"@, limit);
    lemma_put_opt(a, "max_completion_tokens"@, limit);
    let c = minimax::put_opt(b, "temperature"@, minimax::micro_tree(m.temperature));
    lemma_put_opt(b, "temperature"@, minimax::micro_tree(m.temperature));
    let d = minimax::put_opt(c, "top_p"@, minimax::micro_tree(m.top_p));
    lemma_put_opt(c, "top_p"@, minimax::micro_tree(m.top_p));
    let top_k = match m.top_k {
        Some(k) => Some(Tree::Int(k as int)),
        None => None,
    };
    let f = minimax::put_opt(d, "top_k"@, top_k);
    lemma_put_opt(d, "top_k"@, top_k);
    let g = match r.tools {
        Some(v) => if v@.len() > 0 {
            f.put("tools"@, chat_format::tools_tree(v@)).put(
                "tool_choice"@,
                chat_format::tool_choice_tree(r.tool_choice),
            )
        } else {
            f
        },
        None => f,
    };
    if let Some(v) = r.tools {
        let h = f.put("tools"@, chat_format::tools_tree(v@));
        lemma_put(f, "tools"@, chat_format::tools_tree(v@));
        lemma_put(h, "tool_choice"@, chat_format::tool_choice_tree(r.tool_choice));
    }
    lemma_put(g, "reasoning_split"@, Tree::Bool(true));
    let out = minimax::request_body(model_id, r);
    assert(out == g || out == g.put("reasoning_split"@, Tree::Bool(true)));
    assert(json::empty_obj().get("tools"@) is None);
    assert(json::empty_obj().get("tool_choice"@) is None);
}

/// The messages of a request to MiniMax: the system prompt first, where there is one, then
/// the history in order.
pub proof fn law_minimax_messages_are_the_conversation(r: ProviderRequest)
    ensures
        ({
            let ms = minimax::body_messages(r);
            let history = minimax::history(r.messages@);
            &&& r.system_prompt@.len() == 0 ==> ms == history
            &&& r.system_prompt@.len() > 0 ==> ms.len() == history.len() + 1 && ms.skip(1)
                == history && has_text(ms[0], "role"@, "system"@) && has_text(
                ms[0],
                "content"@,
                r.system_prompt@,
            )
        }),
{
    conversation_laws::lemma_keys();
    let ms = minimax::body_messages(r);
    let history = minimax::history(r.messages@);
    conversation_laws::lemma_two(
        "role"@,
        Tree::Str("system"@),
        "content"@,
        Tree::Str(r.system_prompt@),
    );
    if r.system_prompt@.len() == 0 {
        assert(ms =~= history);
    } else {
        assert(ms.skip(1) =~= history);
    }
}

/// A request to Anthropic names the model, holds the messages and the system prompt, asks
/// for a stream and for the limit that it was given, offers the tools with the choice among
/// them, and where it thinks gives thinking its budget.
pub proof fn law_anthropic_body_asks(id: Seq<char>, m: Model, budget: u32, r: ProviderRequest)
    ensures
        ({
            let b = anthropic::request_body(id, m, budget, r);
            let caches = m.supports_prompt_cache;
            let system = b.get("system"@);
            &&& has_text(b, "model"@, anthropic::sanitized(id))
            &&& b.get("messages"@) == Some(
                Tree::Arr(anthropic::body_messages(r.messages@, caches)),
            )
            &&& b.get("stream"@) == Some(Tree::Bool(true))
            &&& system is Some && system->0 is Arr && (system->0->Arr_0).len() == 1
            &&& conversation_laws::is_text_json(system->0->Arr_0[0], r.system_prompt@)
            &&& r.max_tokens is Some && r.max_tokens->0 > 0 ==> b.get("max_tokens"@) == Some(
                Tree::Int(r.max_tokens->0 as int),
            )
            &&& r.tools is Some && r.tools->0@.len() > 0 ==> b.get("tools"@) == Some(
                Tree::Arr(r.tools->0@.map_values(|t: ToolDefinition| anthropic::tool_tree(t))),
            ) && b.get("tool_choice"@) == Some(anthropic::choice_tree(r.tool_choice))
            &&& m.supports_reasoning == Some(true) && budget != 0 ==> b.get("thinking"@) is Some
                && b.get("thinking"@)->0.get("budget_tokens"@) == Some(Tree::Int(budget as int))
        }),
{
    lemma_keys();
    conversation_laws::lemma_keys();
    let caches = m.supports_prompt_cache;
    let model_id = anthropic::sanitized(id);
    let reasons = m.supports_reasoning == Some(true) && budget != 0;
    let e = json::empty_obj();
    let limit = Tree::Int(anthropic::answer_limit(r.max_tokens, m.max_tokens) as int);
    let system = Tree::Arr(anthropic::system_content(r.system_prompt@, caches));
    let messages = Tree::Arr(anthropic::body_messages(r.messages@, caches));
    let a1 = e.put("model"@, Tree::Str(model_id));
    lemma_put(e, "model"@, Tree::Str(model_id));
    let a2 = a1.put("max_tokens"@, limit);
    lemma_put(a1, "max_tokens"@, limit);
    let a3 = a2.put("system"@, system);
    lemma_put(a2, "system"@, system);
    let a4 = a3.put("messages"@, messages);
    lemma_put(a3, "messages"@, messages);
    let a = a4.put("stream"@, Tree::Bool(true));
    lemma_put(a4, "stream"@, Tree::Bool(true));
    lemma_put(a, "temperature"@, Tree::Int(0));
    let b = if !reasons {
        a.put("temperature"@, Tree::Int(0))
    } else {
        a
    };
    lemma_put(b, "speed"@, Tree::Str("fast"@));
    let c = if anthropic::wants_fast(id) {
        b.put("speed"@, Tree::Str("fast"@))
    } else {
        b
    };
    let kind = Tree::Str(
        if text::has(model_id, "opus-4-7"@) || text::has(model_id, "opus-4.7"@) {
            "adaptive"@
        } else {
            "enabled"@
        },
    );
    let thinking = json::empty_obj().put("type"@, kind).put(
        "budget_tokens"@,
        Tree::Int(budget as int),
    );
    lemma_put(json::empty_obj(), "type"@, kind);
    lemma_put(json::empty_obj().put("type"@, kind), "budget_tokens"@, Tree::Int(budget as int));
    lemma_put(c, "thinking"@, thinking);
    let d = if reasons {
        c.put("thinking"@, thinking)
    } else {
        c
    };
    if let Some(v) = r.tools {
        let tools = Tree::Arr(v@.map_values(|t: ToolDefinition| anthropic::tool_tree(t)));
        lemma_put(d, "tools"@, tools);
        lemma_put(d.put("tools"@, tools), "tool_choice"@, anthropic::choice_tree(r.tool_choice));
    }
    conversation_laws::lemma_text_json(r.system_prompt@);
    let part = chat_format::text_part(r.system_prompt@);
    lemma_put(part, "cache_control"@, anthropic::breakpoint());
    assert(seq![part].last() == part);
}

/// A request to Gemini holds the contents of the conversation, the system prompt as an
/// instruction, the limit that it was given within what the model can do, and the tools
/// with the choice among them.
pub proof fn law_gemini_body_asks(s: Settings, r: ProviderRequest, level: GeminiThinkingLevel)
    ensures
        ({
            let b = gemini::request_body(s, r, level);
            let contents = b.get("contents"@);
            let said = gemini_format::contents(r.messages@);
            let system = b.get("systemInstruction"@);
            let made = b.get("generationConfig"@);
            &&& contents is Some && contents->0 is Arr && (contents->0->Arr_0).len() == said.len()
            &&& forall|i: int|
                0 <= i < said.len() ==> (#[trigger] contents->0->Arr_0[i])
                    == gemini_format::content_tree(said[i])
            &&& r.system_prompt@.len() == 0 ==> system is None
            &&& r.system_prompt@.len() > 0 ==> system is Some && is_instruction(
                system->0,
                r.system_prompt@,
            )
            &&& made is Some
            &&& r.max_tokens is Some && 0 < r.max_tokens->0 <= 32_768 ==> made->0.get(
                "maxOutputTokens"@,
            ) == Some(Tree::Int(r.max_tokens->0 as int))
            &&& r.tools is Some && r.tools->0@.len() > 0 ==> b.get("tools"@) == Some(
                gemini::tools_tree(r.tools->0@),
            ) && b.get("toolConfig"@) is Some && b.get("toolConfig"@)->0.get(
                "functionCallingConfig"@,
            ) == Some(gemini::calling_config(r.tool_choice))
            &&& r.tools is None ==> b.get("tools"@) is None
        }),
{
    lemma_keys();
    let e = json::empty_obj();
    let contents = gemini_format::contents_tree(gemini_format::contents(r.messages@));
    let made = gemini::generation_tree(s, r.max_tokens, level);
    lemma_generation(s, r.max_tokens, level);
    let a1 = e.put("contents"@, contents);
    lemma_put(e, "contents"@, contents);
    let a = a1.put("generationConfig"@, made);
    lemma_put(a1, "generationConfig"@, made);
    let said = json::empty_obj().put("text"@, Tree::Str(r.system_prompt@));
    lemma_put(json::empty_obj(), "text"@, Tree::Str(r.system_prompt@));
    let instruction = json::empty_obj().put("parts"@, Tree::Arr(seq![said]));
    lemma_put(json::empty_obj(), "parts"@, Tree::Arr(seq![said]));
    lemma_put(a, "systemInstruction"@, instruction);
    assert(seq![said][0] == said);
    let b = if r.system_prompt@.len() > 0 {
        a.put("systemInstruction"@, instruction)
    } else {
        a
    };
    let calling = gemini::calling_config(r.tool_choice);
    let config = json::empty_obj().put("functionCallingConfig"@, calling);
    lemma_put(json::empty_obj(), "functionCallingConfig"@, calling);
    if let Some(v) = r.tools {
        lemma_put(b, "tools"@, gemini::tools_tree(v@));
        lemma_put(b.put("tools"@, gemini::tools_tree(v@)), "toolConfig"@, config);
    }
    assert(json::empty_obj().get("tools"@) is None);
    assert(json::empty_obj().get("systemInstruction"@) is None);
}

/// An instruction: one part, which says the prompt.
pub open spec fn is_instruction(t: Tree, prompt: Seq<char>) -> bool {
    let parts = t.get("parts"@);
    &&& parts is Some && parts->0 is Arr && (parts->0->Arr_0).len() == 1
    &&& has_text(parts->0->Arr_0[0], "text"@, prompt)
}

proof fn lemma_generation(s: Settings, asked: Option<u32>, level: GeminiThinkingLevel)
    ensures
        asked is Some && 0 < asked->0 <= 32_768 ==> gemini::generation_tree(s, asked, level).get(
            "maxOutputTokens"@,
        ) == Some(Tree::Int(asked->0 as int)),
{
    lemma_keys();
    let warm = Tree::Real(text::micro_decimal(gemini::temperature(s) as nat));
    let e = json::empty_obj();
    let a1 = e.put("temperature"@, warm);
    lemma_put(e, "temperature"@, warm);
    let top = Tree::Real(text::micro_decimal(800_000));
    let a = a1.put("topP"@, top);
    lemma_put(a1, "topP"@, top);
    let limit = match gemini::output_limit(s, asked) {
        Some(n) => Some(Tree::Int(n as int)),
        None => None,
    };
    let b = minimax::put_opt(a, "maxOutputTokens"@, limit);
    lemma_put_opt(a, "maxOutputTokens"@, limit);
    let thinking = gemini::thinking_tree(s, level);
    let c = minimax::put_opt(b, "thinkingConfig"@, thinking);
    lemma_put_opt(b, "thinkingConfig"@, thinking);
    lemma_put(c, "includeServerSideToolInvocations"@, Tree::Bool(true));
}

/// Every tool is declared to Gemini with its name and its description, in order; the choice
/// of one tool allows that tool alone.
pub proof fn law_gemini_tools_are_declared(v: Seq<ToolDefinition>, k: int, name: String)
    requires
        0 <= k < v.len(),
    ensures
        ({
            let t = gemini::tools_tree(v);
            let list = (t->Arr_0[0]).get("functionDeclarations"@);
            let named = gemini::calling_config(Some(ToolChoice::Named(name)));
            let f = v[k].function;
            &&& t is Arr && (t->Arr_0).len() == 1
            &&& list is Some && list->0 is Arr && (list->0->Arr_0).len() == v.len()
            &&& has_text(list->0->Arr_0[k], "name"@, f.name@)
            &&& has_text(list->0->Arr_0[k], "description"@, f.description@)
            &&& (list->0->Arr_0[k]).get("parameters"@) == Some(gemini::stripped(f.parameters@))
            &&& has_text(named, "mode"@, "ANY"@)
            &&& named.get("allowedFunctionNames"@) == Some(Tree::Arr(seq![Tree::Str(name@)]))
            &&& has_text(gemini::calling_config(Some(ToolChoice::Required)), "mode"@, "ANY"@)
            &&& has_text(gemini::calling_config(Some(ToolChoice::NoTool)), "mode"@, "NONE"@)
            &&& has_text(gemini::calling_config(Some(ToolChoice::Auto)), "mode"@, "AUTO"@)
            &&& has_text(gemini::calling_config(None), "mode"@, "AUTO"@)
        }),
{
    conversation_laws::lemma_keys();
    reveal_strlit("mode");
    reveal_strlit("allowedFunctionNames");
    assert("mode"@.len() == 4);
    assert("allowedFunctionNames"@.len() == 20);
    let f = v[k].function;
    conversation_laws::lemma_three(
        "name"@,
        Tree::Str(f.name@),
        "description"@,
        Tree::Str(f.description@),
        "parameters"@,
        gemini::stripped(f.parameters@),
    );
    let e = json::empty_obj();
    let list = Tree::Arr(v.map_values(|t: ToolDefinition| gemini::declaration(t)));
    lemma_put(e, "functionDeclarations"@, list);
    lemma_put(e, "mode"@, Tree::Str("ANY"@));
    lemma_put(e, "mode"@, Tree::Str("NONE"@));
    lemma_put(e, "mode"@, Tree::Str("AUTO"@));
    lemma_put(
        e.put("mode"@, Tree::Str("ANY"@)),
        "allowedFunctionNames"@,
        Tree::Arr(seq![Tree::Str(name@)]),
    );
    let one = e.put("functionDeclarations"@, list);
    assert(seq![one][0] == one);
    assert(list->Arr_0[k] == gemini::declaration(v[k]));
}

/// Parameters keep every member but the one that Gemini does not take.
pub proof fn law_gemini_parameters_are_kept(m: Seq<(Seq<char>, Tree)>, i: int)
    requires
        0 <= i < m.len(),
        m[i].0 != "additionalProperties"@,
        m[i].0 != "properties"@,
    ensures
        gemini::stripped(Tree::Obj(m)) is Obj,
        (gemini::stripped(Tree::Obj(m))->Obj_0).contains(m[i]),
{
    let kept = gemini::without_key(m, gemini::extra_key());
    lemma_kept(m, i);
    let k = choose|k: int| 0 <= k < kept.len() && kept[k] == m[i];
    assert((gemini::stripped(Tree::Obj(m))->Obj_0)[k] == m[i]);
}

proof fn lemma_kept(m: Seq<(Seq<char>, Tree)>, i: int)
    requires
        0 <= i < m.len(),
        m[i].0 != "additionalProperties"@,
    ensures
        gemini::without_key(m, gemini::extra_key()).contains(m[i]),
    decreases m.len(),
{
    let all = gemini::without_key(m, gemini::extra_key());
    if i == m.len() - 1 {
        assert(all[all.len() - 1] == m[i]);
    } else {
        let p = m.drop_last();
        lemma_kept(p, i);
        let few = gemini::without_key(p, gemini::extra_key());
        let k = choose|k: int| 0 <= k < few.len() && few[k] == m[i];
        assert(all[k] == m[i]);
    }
}

/// A further member that a configuration adds to a body is there, unless it would replace
/// what the body is about; of two under one key the last counts.
pub proof fn law_extra_members_are_added(
    body: Tree,
    extra: Seq<(Seq<char>, Tree)>,
    key: Seq<char>,
    v: Tree,
    other: Seq<char>,
)
    requires
        body is Obj,
    ensures
        ({
            let core = key == "model"@ || key == "messages"@ || key == "stream"@ || key
                == "stream_options"@ || key == "tools"@ || key == "tool_choice"@;
            let before = openai::with_extra(body, extra);
            let after = openai::with_extra(body, extra.push((key, v)));
            &&& openai::with_extra(body, Seq::empty()) == body
            &&& core ==> after == before
            &&& !core ==> after.get(key) == Some(v)
            &&& other != key ==> after.get(other) == before.get(other)
        }),
{
    lemma_extra_is_object(body, extra);
    assert(extra.push((key, v)).drop_last() =~= extra);
    lemma_put(openai::with_extra(body, extra), key, v);
}

proof fn lemma_extra_is_object(body: Tree, extra: Seq<(Seq<char>, Tree)>)
    requires
        body is Obj,
    ensures
        openai::with_extra(body, extra) is Obj,
    decreases extra.len(),
{
    if extra.len() > 0 {
        lemma_extra_is_object(body, extra.drop_last());
        lemma_put(openai::with_extra(body, extra.drop_last()), extra.last().0, extra.last().1);
    }
}

/// A model that belongs to another provider is hinted at where it was not found, and only
/// there; what the endpoint said stands before the hint.
pub proof fn law_hints_follow_the_body(
    status: u16,
    id: Seq<char>,
    body: Seq<char>,
    word: Seq<char>,
    title: Seq<char>,
)
    ensures
        ({
            let r = openai::hinted_body(status, id, body, word, title);
            let lower = text::lowercased(id);
            let hint = "\n\nHint: Model '"@ + id;
            &&& status != 404 ==> r == body
            &&& !text::begins(lower, word + "-"@) && !text::begins(lower, "gemini-"@) ==> r == body
            &&& status == 404 && (text::begins(lower, word + "-"@) || text::begins(
                lower,
                "gemini-"@,
            )) ==> r.len() >= body.len() + hint.len() && r.take(
                (body.len() + hint.len()) as int,
            ) == body + hint
        }),
{
    let r = openai::hinted_body(status, id, body, word, title);
    let hint = "\n\nHint: Model '"@ + id;
    let lower = text::lowercased(id);
    if status == 404 && (text::begins(lower, word + "-"@) || text::begins(lower, "gemini-"@)) {
        assert(r.take((body.len() + hint.len()) as int) =~= body + hint);
    }
}

/// An address that is configured is the one that is used, and each provider has its own
/// otherwise.
pub proof fn law_configured_addresses_are_used(url: Seq<char>)
    requires
        url.len() > 0,
        text::trimmed(url) == url,
        url.last() != '/',
    ensures
        anthropic::address(Some(url)) == url,
        gemini::address(Some(url)) == url,
        gemini::address(Some(url.push('/'))) == url,
        anthropic::address(None) == "https://api.anthropic.com/v1"@,
        anthropic::address(Some(Seq::empty())) == anthropic::address(None),
        gemini::address(None) == "https://generativelanguage.googleapis.com/v1beta"@,
        gemini::address(Some(Seq::empty())) == gemini::address(None),
{
    text::lemma_without_tail(url, '/');
    text::lemma_trimmed_ends(url);
    let u = url.push('/');
    assert(u[0] == url[0]);
    text::lemma_nothing_to_trim(u);
    assert(u.drop_last() =~= url);
}

/// Thinking is asked for as the model takes it: by a level, or by a budget that stays within
/// what the model allows; a model without either does not think.
pub proof fn law_gemini_thinks_within_bounds(s: Settings, level: GeminiThinkingLevel, m: Model)
    requires
        s.model == Some(m),
    ensures
        ({
            let t = gemini::thinking_tree(s, level);
            &&& m.thinking_config is None ==> t is None
            &&& m.thinking_config is Some && (m.thinking_config->0).supports_thinking_level == Some(
                true,
            ) ==> t is Some && has_text(t->0, "thinkingLevel"@, gemini::level_name(level))
                && t->0.get("includeThoughts"@) == Some(Tree::Bool(true))
            &&& m.thinking_config is Some && (m.thinking_config->0).supports_thinking_level != Some(
                true,
            ) && (m.thinking_config->0).max_budget is Some && 0 < (
            m.thinking_config->0).max_budget->0 <= i32::MAX ==> t is Some && ({
                let max = (m.thinking_config->0).max_budget->0;
                let b = t->0.get("thinkingBudget"@);
                &&& b is Some && b->0 is Int
                &&& -1 <= b->0->Int_0 <= max
                &&& s.budget is Some && 0 < s.budget->0 <= max ==> b->0->Int_0 == s.budget->0
                &&& s.budget is None || s.budget->0 == 0 ==> b->0->Int_0 == -1
                &&& t->0.get("includeThoughts"@) == Some(Tree::Bool(true))
            })
        }),
{
    reveal_strlit("thinkingLevel");
    reveal_strlit("thinkingBudget");
    reveal_strlit("includeThoughts");
    assert("thinkingLevel"@.len() == 13);
    assert("thinkingBudget"@.len() == 14);
    assert("includeThoughts"@.len() == 15);
    let e = json::empty_obj();
    let named = Tree::Str(gemini::level_name(level));
    lemma_put(e, "thinkingLevel"@, named);
    lemma_put(e.put("thinkingLevel"@, named), "includeThoughts"@, Tree::Bool(true));
    if let Some(c) = m.thinking_config {
        if let Some(max) = c.max_budget {
            let set = match s.budget {
                Some(b) => b,
                None => 0,
            };
            let n = Tree::Int(gemini::signed_budget(set, max));
            lemma_put(e, "thinkingBudget"@, n);
            lemma_put(e.put("thinkingBudget"@, n), "includeThoughts"@, Tree::Bool(true));
        }
    }
}

/// The names of the efforts tell the levels; a stronger effort is never a lower level.
pub proof fn law_efforts_tell_levels()
    ensures
        gemini::level_for("minimal"@) == GeminiThinkingLevel::Minimal,
        gemini::level_for("low"@) == GeminiThinkingLevel::Low,
        gemini::level_for("medium"@) == GeminiThinkingLevel::Medium,
        gemini::level_for("high"@) == GeminiThinkingLevel::High,
        gemini::level_for("xhigh"@) == GeminiThinkingLevel::High,
{
    reveal_strlit("minimal");
    reveal_strlit("low");
    reveal_strlit("medium");
    reveal_strlit("high");
    reveal_strlit("xhigh");
    assert("minimal"@.len() == 7);
    assert("low"@.len() == 3);
    assert("medium"@.len() == 6);
    assert("high"@.len() == 4);
    assert("xhigh"@.len() == 5);
}

/// A model that is asked for with `:fast` or `:1m` at its end is asked for in that mode, and
/// its name is sent without it.
pub proof fn law_modes_are_asked_for(key: Seq<char>, id: Seq<char>)
    requires
        !text::ends(id, ":fast"@),
        !text::ends(id, ":1m"@),
    ensures
        anthropic::sanitized(id) == id,
        anthropic::sanitized(id + ":fast"@) == id,
        anthropic::sanitized(id + ":1m"@) == id,
        anthropic::wants_fast(id + ":fast"@),
        anthropic::wants_long(id + ":1m"@),
        ({
            let h = anthropic::request_headers(key, id + ":fast"@);
            let l = anthropic::request_headers(key, id + ":1m"@);
            &&& h.last().0 == "anthropic-beta"@
            &&& l.last().0 == "anthropic-beta"@
        }),
{
    reveal_strlit(":fast");
    reveal_strlit(":1m");
    let f = id + ":fast"@;
    let l = id + ":1m"@;
    assert(f.subrange(f.len() - 5, f.len() as int) =~= ":fast"@);
    assert(l.subrange(l.len() - 3, l.len() as int) =~= ":1m"@);
    assert(f.take(f.len() - ":fast"@.len()) =~= id);
    assert(l.take(l.len() - ":1m"@.len()) =~= id);
    assert(anthropic::sanitized(id) == id);
    assert(!text::ends(l, ":fast"@)) by {
        if text::ends(l, ":fast"@) {
            assert(l.subrange(l.len() - 5, l.len() as int)[4] == ":fast"@[4]);
            assert(l[l.len() - 1] == ":1m"@[2]);
        }
    }
}

} // verus!
