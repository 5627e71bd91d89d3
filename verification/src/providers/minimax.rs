//! MiniMax: requests to its chat completion endpoint, and its models.
//!
//! The endpoint takes tools in the nested form `{"type":"function","function":{..}}`,
//! `reasoning_split` at the top of the body, `max_completion_tokens` in place of
//! `max_tokens`, and message contents that are never null.

use crate::json;
use crate::json::{Json, Tree};
use crate::providers::chat_format;
use crate::providers::types;
use crate::providers::types::{
    AssistantContentBlock, MessageContent, Model, ModelInfo, ProviderModel, ProviderRequest,
    ReasoningDetailParam, StorageMessage, Thinking, ThinkingConfig,
};
use crate::text;
use vstd::prelude::*;

verus! {

/// Configuration for the MiniMax provider.
pub struct MinimaxConfig {
    pub api_key: String,
    /// "china" for China API, anything else for global
    pub api_line: Option<String>,
    pub model_id: String,
    pub model_info: Option<ModelInfo>,
    pub thinking_budget_tokens: Option<u32>,
}

/// MiniMax API provider.
pub struct MinimaxProvider {
    pub config: MinimaxConfig,
}

/// What is shown in place of a key.
pub open spec fn redacted(key: Seq<char>) -> Seq<char> {
    "***REDACTED ("@ + text::decimal(text::byte_len(key)) + " chars)***"@
}

/// What is shown in place of a key.
pub fn redact(key: &str) -> (r: String)
    ensures
        r@ == redacted(key@),
{
    let mut s = "***REDACTED (".to_owned();
    let n = text::number_text(text::byte_count(key) as u64);
    text::push_text(&mut s, n.as_str());
    text::push_text(&mut s, " chars)***");
    s
}

/// The headers of a JSON request: the content type, then `extra`, then the key where
/// there is one.
pub open spec fn request_headers(
    key: Seq<char>,
    extra: Seq<(Seq<char>, Seq<char>)>,
) -> Seq<(Seq<char>, Seq<char>)> {
    let base = seq![("content-type"@, "application/json"@)] + extra;
    if key.len() > 0 {
        base.push(("authorization"@, "Bearer "@ + key))
    } else {
        base
    }
}

/// The headers of a JSON request.
pub fn make_request_headers(key: &str, extra: &Vec<(String, String)>) -> (r: Vec<(String, String)>)
    ensures
        text::pair_texts(r@) == request_headers(key@, text::pair_texts(extra@)),
{
    let mut out: Vec<(String, String)> = Vec::new();
    out.push(("content-type".to_owned(), "application/json".to_owned()));
    let ghost xs = text::pair_texts(extra@);
    let ghost first = seq![("content-type"@, "application/json"@)];
    let mut i: usize = 0;
    assert(text::pair_texts(out@) =~= first + xs.take(0));
    while i < extra.len()
        invariant
            i <= extra@.len(),
            xs == text::pair_texts(extra@),
            text::pair_texts(out@) =~= first + xs.take(i as int),
        decreases extra@.len() - i,
    {
        let ghost before = out@;
        let h = (extra[i].0.clone(), extra[i].1.clone());
        out.push(h);
        assert(text::pair_texts(out@) =~= text::pair_texts(before).push((h.0@, h.1@)));
        i = i + 1;
    }
    assert(xs.take(i as int) =~= xs);
    if !key.is_empty() {
        let ghost before = out@;
        let mut bearer = "Bearer ".to_owned();
        text::push_text(&mut bearer, key);
        out.push(("authorization".to_owned(), bearer));
        assert(text::pair_texts(out@) =~= text::pair_texts(before).push(("authorization"@, "Bearer "@ + key@)));
    }
    out
}

// ---------------------------------------------------------------------------
// Models
// ---------------------------------------------------------------------------

/// The name under which MiniMax knows a model.
pub open spec fn canonical_id(id: Seq<char>) -> Seq<char> {
    let t = text::trimmed(id);
    if t == "minimax-m2.7"@ {
        "MiniMax-M2.7"@
    } else if t == "minimax-m2.7-highspeed"@ {
        "MiniMax-M2.7-highspeed"@
    } else if t == "minimax-m2.5"@ {
        "MiniMax-M2.5"@
    } else if t == "minimax-m2.5-highspeed"@ {
        "MiniMax-M2.5-highspeed"@
    } else if t == "minimax-m2.1"@ {
        "MiniMax-M2.1"@
    } else if t == "minimax-m2.1-highspeed"@ {
        "MiniMax-M2.1-highspeed"@
    } else if t == "minimax-m2"@ {
        "MiniMax-M2"@
    } else {
        t
    }
}

/// The description of a model that is not in the table.
pub open spec fn unknown_model(name: Seq<char>) -> Model {
    Model {
        name: Some(name),
        max_tokens: Some(128_000),
        context_window: Some(204_800),
        supports_images: Some(false),
        supports_prompt_cache: true,
        supports_reasoning: Some(true),
        input_price: Some(300_000),
        output_price: Some(1_200_000),
        cache_writes_price: Some(375_000),
        cache_reads_price: Some(30_000),
        temperature: Some(1_000_000),
        supports_tools: Some(true),
        ..types::blank_model()
    }
}

/// The description of a model of the table. The fast models cost twice as much.
pub open spec fn listed_model(
    name: Seq<char>,
    max_tokens: u32,
    fast: bool,
    cache_reads: u64,
    top_k: u32,
    description: Seq<char>,
) -> Model {
    Model {
        max_tokens: Some(max_tokens),
        input_price: Some(
            if fast {
                600_000
            } else {
                300_000
            },
        ),
        output_price: Some(
            if fast {
                2_400_000
            } else {
                1_200_000
            },
        ),
        thinking_config: Some(
            Thinking {
                max_budget: Some(1024),
                output_price: None,
                output_price_tiers: None,
                gemini_thinking_level: None,
                supports_thinking_level: None,
            },
        ),
        cache_reads_price: Some(cache_reads),
        description: Some(description),
        top_p: Some(950_000),
        top_k: Some(top_k),
        ..unknown_model(name)
    }
}

/// The description of a model, by the name under which MiniMax knows it.
pub open spec fn minimax_model(name: Seq<char>) -> Model {
    if name == "MiniMax-M2.7"@ {
        listed_model(
            name,
            128_000,
            false,
            60_000,
            40,
            "MiniMax M2.7 is built for state-of-the-art coding, agentic tool use."@,
        )
    } else if name == "MiniMax-M2.7-highspeed"@ {
        listed_model(
            name,
            128_000,
            true,
            60_000,
            40,
            "MiniMax M2.7 Highspeed: Same performance, faster and more agile."@,
        )
    } else if name == "MiniMax-M2.5"@ {
        listed_model(
            name,
            16_384,
            false,
            30_000,
            40,
            "MiniMax M2.5 is built for state-of-the-art coding, agentic tool use."@,
        )
    } else if name == "MiniMax-M2.5-highspeed"@ {
        listed_model(
            name,
            16_384,
            true,
            30_000,
            40,
            "MiniMax M2.5 highspeed: Same performance, faster and more agile."@,
        )
    } else if name == "MiniMax-M2.1"@ {
        listed_model(
            name,
            16_384,
            false,
            30_000,
            40,
            "MiniMax M2.1 is built for state-of-the-art coding, agentic tool use."@,
        )
    } else if name == "MiniMax-M2.1-highspeed"@ {
        listed_model(
            name,
            16_384,
            true,
            30_000,
            40,
            "MiniMax M2.1 highspeed: Faster and more agile."@,
        )
    } else if name == "MiniMax-M2"@ {
        listed_model(
            name,
            16_384,
            false,
            30_000,
            20,
            "MiniMax M2 - Agentic capabilities, Advanced reasoning."@,
        )
    } else {
        unknown_model(name)
    }
}

fn make_unknown(name: &str) -> (r: ModelInfo)
    ensures
        r@ == unknown_model(name@),
{
    ModelInfo {
        name: Some(name.to_owned()),
        max_tokens: Some(128_000),
        context_window: Some(204_800),
        supports_images: Some(false),
        supports_prompt_cache: true,
        supports_reasoning: Some(true),
        input_price: Some(300_000),
        output_price: Some(1_200_000),
        image_output_price: None,
        thinking_config: None,
        supports_global_endpoint: None,
        cache_writes_price: Some(375_000),
        cache_reads_price: Some(30_000),
        description: None,
        tiers: None,
        temperature: Some(1_000_000),
        top_p: None,
        top_k: None,
        supports_tools: Some(true),
        api_format: None,
    }
}

fn make_listed(
    name: &str,
    max_tokens: u32,
    fast: bool,
    cache_reads: u64,
    top_k: u32,
    description: &str,
) -> (r: ModelInfo)
    ensures
        r@ == listed_model(name@, max_tokens, fast, cache_reads, top_k, description@),
{
    let mut m = make_unknown(name);
    m.max_tokens = Some(max_tokens);
    if fast {
        m.input_price = Some(600_000);
        m.output_price = Some(2_400_000);
    }
    m.thinking_config =
    Some(
        ThinkingConfig {
            max_budget: Some(1024),
            output_price: None,
            output_price_tiers: None,
            gemini_thinking_level: None,
            supports_thinking_level: None,
        },
    );
    m.cache_reads_price = Some(cache_reads);
    m.description = Some(description.to_owned());
    m.top_p = Some(950_000);
    m.top_k = Some(top_k);
    m
}

/// The address of the endpoint, which is another one in China.
pub open spec fn address(line: Option<Seq<char>>) -> Seq<char> {
    if line == Some("china"@) {
        "https://api.minimaxi.com/v1"@
    } else {
        "https://api.minimax.io/v1"@
    }
}

impl MinimaxProvider {
    /// A provider with a configuration.
    pub fn new(config: MinimaxConfig) -> (r: MinimaxProvider)
        ensures
            r.config == config,
    {
        MinimaxProvider { config }
    }

    /// The headers of a request.
    pub fn build_headers(&self) -> (r: Vec<(String, String)>)
        ensures
            text::pair_texts(r@) == request_headers(self.config.api_key@, Seq::empty()),
    {
        let none: Vec<(String, String)> = Vec::new();
        assert(text::pair_texts(none@) =~= Seq::empty());
        make_request_headers(self.config.api_key.as_str(), &none)
    }

    /// The address for chat completions.
    pub fn completions_url(&self) -> (r: String)
        ensures
            r@ == address(text::opt(self.config.api_line)) + "/chat/completions"@,
    {
        let mut s = self.base_url();
        text::push_text(&mut s, "/chat/completions");
        s
    }

    /// The address of the endpoint: the one in China where the configuration asks for
    /// it, the international one else.
    pub fn base_url(&self) -> (r: String)
        ensures
            r@ == address(text::opt(self.config.api_line)),
    {
        if let Some(l) = &self.config.api_line {
            if text::same(l.as_str(), "china") {
                return "https://api.minimaxi.com/v1".to_owned();
            }
        }
        "https://api.minimax.io/v1".to_owned()
    }

    /// The name under which MiniMax knows the model.
    pub fn canonical_model_id(&self) -> (r: String)
        ensures
            r@ == canonical_id(self.config.model_id@),
    {
        let t = text::trim(self.config.model_id.as_str());
        if text::same(t.as_str(), "minimax-m2.7") {
            "MiniMax-M2.7".to_owned()
        } else if text::same(t.as_str(), "minimax-m2.7-highspeed") {
            "MiniMax-M2.7-highspeed".to_owned()
        } else if text::same(t.as_str(), "minimax-m2.5") {
            "MiniMax-M2.5".to_owned()
        } else if text::same(t.as_str(), "minimax-m2.5-highspeed") {
            "MiniMax-M2.5-highspeed".to_owned()
        } else if text::same(t.as_str(), "minimax-m2.1") {
            "MiniMax-M2.1".to_owned()
        } else if text::same(t.as_str(), "minimax-m2.1-highspeed") {
            "MiniMax-M2.1-highspeed".to_owned()
        } else if text::same(t.as_str(), "minimax-m2") {
            "MiniMax-M2".to_owned()
        } else {
            t
        }
    }

    /// The description of the model.
    pub fn get_model_info(&self) -> (r: ModelInfo)
        ensures
            r@ == minimax_model(canonical_id(self.config.model_id@)),
    {
        let id = self.canonical_model_id();
        let name = id.as_str();
        if text::same(name, "MiniMax-M2.7") {
            make_listed(
                name,
                128_000,
                false,
                60_000,
                40,
                "MiniMax M2.7 is built for state-of-the-art coding, agentic tool use.",
            )
        } else if text::same(name, "MiniMax-M2.7-highspeed") {
            make_listed(
                name,
                128_000,
                true,
                60_000,
                40,
                "MiniMax M2.7 Highspeed: Same performance, faster and more agile.",
            )
        } else if text::same(name, "MiniMax-M2.5") {
            make_listed(
                name,
                16_384,
                false,
                30_000,
                40,
                "MiniMax M2.5 is built for state-of-the-art coding, agentic tool use.",
            )
        } else if text::same(name, "MiniMax-M2.5-highspeed") {
            make_listed(
                name,
                16_384,
                true,
                30_000,
                40,
                "MiniMax M2.5 highspeed: Same performance, faster and more agile.",
            )
        } else if text::same(name, "MiniMax-M2.1") {
            make_listed(
                name,
                16_384,
                false,
                30_000,
                40,
                "MiniMax M2.1 is built for state-of-the-art coding, agentic tool use.",
            )
        } else if text::same(name, "MiniMax-M2.1-highspeed") {
            make_listed(
                name,
                16_384,
                true,
                30_000,
                40,
                "MiniMax M2.1 highspeed: Faster and more agile.",
            )
        } else if text::same(name, "MiniMax-M2") {
            make_listed(
                name,
                16_384,
                false,
                30_000,
                20,
                "MiniMax M2 - Agentic capabilities, Advanced reasoning.",
            )
        } else {
            make_unknown(name)
        }
    }

    /// The model that the provider talks to.
    pub fn get_model(&self) -> (r: ProviderModel)
        ensures
            r.id@ == canonical_id(self.config.model_id@),
            r.info@ == minimax_model(canonical_id(self.config.model_id@)),
    {
        ProviderModel { id: self.canonical_model_id(), info: self.get_model_info() }
    }

    /// The name of the provider.
    pub fn name(&self) -> (r: &'static str)
        ensures
            r@ == "minimax"@,
    {
        "minimax"
    }

    /// The body of a request.
    pub fn build_request_body(&self, request: &ProviderRequest) -> (r: Json)
        ensures
            r@ == request_body(canonical_id(self.config.model_id@), *request),
    {
        let model_id = self.canonical_model_id();
        let info = self.get_model_info();
        let mut messages = chat_format::no_json();
        if !request.system_prompt.as_str().is_empty() {
            chat_format::push_json(
                &mut messages,
                chat_format::make_message("system", Json::str(request.system_prompt.as_str())),
            );
        }
        let ghost head = json::trees(messages@);
        let mut i: usize = 0;
        assert(head + history(request.messages@.take(0)) =~= head);
        while i < request.messages.len()
            invariant
                i <= request.messages@.len(),
                json::trees(messages@) =~= head + history(request.messages@.take(i as int)),
            decreases request.messages@.len() - i,
        {
            proof {
                assert(request.messages@.take(i + 1).drop_last() =~= request.messages@.take(
                    i as int,
                ));
                assert(request.messages@.take(i + 1).last() == request.messages@[i as int]);
            }
            let more = convert_message_to_openai(&request.messages[i]);
            chat_format::append_json(&mut messages, more);
            i = i + 1;
        }
        assert(request.messages@.take(i as int) =~= request.messages@);
        assert(json::trees(messages@) =~= body_messages(*request));
        let mut body = Json::object();
        body.put("model", Json::str(model_id.as_str()));
        body.put("messages", Json::array(messages));
        body.put("stream", Json::Bool(true));
        let limit: Option<u32> = match request.max_tokens {
            Some(n) => Some(n),
            None => info.max_tokens,
        };
        if let Some(n) = limit {
            if n > 0 {
                body.put("max_completion_tokens", Json::Int(n as i128));
            }
        }
        if let Some(t) = info.temperature {
            body.put("temperature", Json::Real(text::micro_text(t)));
        }
        if let Some(t) = info.top_p {
            body.put("top_p", Json::Real(text::micro_text(t)));
        }
        if let Some(t) = info.top_k {
            body.put("top_k", Json::Int(t as i128));
        }
        if let Some(tools) = &request.tools {
            if tools.len() > 0 {
                body.put("tools", chat_format::make_tools(tools));
                body.put("tool_choice", chat_format::make_tool_choice(&request.tool_choice));
            }
        }
        if let Some(true) = info.supports_reasoning {
            body.put("reasoning_split", Json::Bool(true));
        }
        body
    }
}

// ---------------------------------------------------------------------------
// Messages
// ---------------------------------------------------------------------------

/// The visible text of an assistant turn, each text after the first on a line of its
/// own.
pub open spec fn turn_text(blocks: Seq<AssistantContentBlock>) -> Seq<char>
    decreases blocks.len(),
{
    if blocks.len() == 0 {
        Seq::empty()
    } else {
        let rest = turn_text(blocks.drop_last());
        match blocks.last() {
            AssistantContentBlock::Text(t) => if rest.len() > 0 {
                rest + "\n"@ + t.text@
            } else {
                rest + t.text@
            },
            _ => rest,
        }
    }
}

/// A tool call of an assistant turn.
pub open spec fn turn_call(id: Seq<char>, name: Seq<char>, input: Tree) -> Tree {
    json::empty_obj().put("id"@, Tree::Str(id)).put("type"@, Tree::Str("function"@)).put(
        "function"@,
        json::empty_obj().put("name"@, Tree::Str(name)).put(
            "arguments"@,
            Tree::Str(json::printed(input)),
        ),
    )
}

/// The tool calls of an assistant turn.
pub open spec fn turn_calls(blocks: Seq<AssistantContentBlock>) -> Seq<Tree>
    decreases blocks.len(),
{
    if blocks.len() == 0 {
        Seq::empty()
    } else {
        let rest = turn_calls(blocks.drop_last());
        match blocks.last() {
            AssistantContentBlock::ToolUse(t) => rest.push(turn_call(t.id@, t.name@, t.input@)),
            _ => rest,
        }
    }
}

/// A reasoning detail.
pub open spec fn detail_tree(t: Seq<char>) -> Tree {
    json::empty_obj().put("text"@, Tree::Str(t))
}

/// A list of reasoning details.
pub open spec fn detail_trees(v: Option<Vec<ReasoningDetailParam>>) -> Seq<Tree> {
    match v {
        Some(d) => d@.map_values(|p: ReasoningDetailParam| detail_tree(p.text@)),
        None => Seq::empty(),
    }
}

/// The reasoning of an assistant turn, which is sent back so that the model keeps it.
pub open spec fn turn_details(blocks: Seq<AssistantContentBlock>) -> Seq<Tree>
    decreases blocks.len(),
{
    if blocks.len() == 0 {
        Seq::empty()
    } else {
        let rest = turn_details(blocks.drop_last());
        match blocks.last() {
            AssistantContentBlock::Text(t) => rest + detail_trees(t.reasoning_details),
            AssistantContentBlock::ToolUse(t) => rest + detail_trees(t.reasoning_details),
            AssistantContentBlock::Thinking(t) => rest.push(detail_tree(t.thinking@)),
            _ => rest,
        }
    }
}

/// The message that an assistant turn becomes. Its content is a text even where it is
/// empty.
pub open spec fn assistant_message(role: Seq<char>, blocks: Seq<AssistantContentBlock>) -> Tree {
    let base = chat_format::message(role, Tree::Str(turn_text(blocks)));
    let with_calls = if turn_calls(blocks).len() > 0 {
        base.put("tool_calls"@, Tree::Arr(turn_calls(blocks)))
    } else {
        base
    };
    if turn_details(blocks).len() > 0 {
        with_calls.put("reasoning_details"@, Tree::Arr(turn_details(blocks)))
    } else {
        with_calls
    }
}

/// The messages that a turn becomes.
pub open spec fn turn_messages(m: StorageMessage) -> Seq<Tree> {
    let role = chat_format::role_name(m.role);
    match m.content {
        MessageContent::Text(t) => seq![chat_format::message(role, Tree::Str(t@))],
        MessageContent::UserBlocks(b) => chat_format::user_messages(role, b@, false, false),
        MessageContent::AssistantBlocks(b) => seq![assistant_message(role, b@)],
    }
}

/// The messages that a history becomes.
pub open spec fn history(v: Seq<StorageMessage>) -> Seq<Tree>
    decreases v.len(),
{
    if v.len() == 0 {
        Seq::empty()
    } else {
        history(v.drop_last()) + turn_messages(v.last())
    }
}

/// The messages of a request: the system prompt, where there is one, and the history.
pub open spec fn body_messages(r: ProviderRequest) -> Seq<Tree> {
    (if r.system_prompt@.len() > 0 {
        seq![chat_format::message("system"@, Tree::Str(r.system_prompt@))]
    } else {
        Seq::empty()
    }) + history(r.messages@)
}

/// The tree with a member, where there is a value for it.
pub open spec fn put_opt(t: Tree, key: Seq<char>, v: Option<Tree>) -> Tree {
    match v {
        Some(x) => t.put(key, x),
        None => t,
    }
}

/// A decimal number given in millionths.
pub open spec fn micro_tree(n: Option<u64>) -> Option<Tree> {
    match n {
        Some(k) => Some(Tree::Real(text::micro_decimal(k as nat))),
        None => None,
    }
}

/// The limit on the answer: of the request, or else of the model, if it is not zero.
pub open spec fn limit_tree(asked: Option<u32>, model: Option<u32>) -> Option<Tree> {
    let n = match asked {
        Some(k) => Some(k),
        None => model,
    };
    match n {
        Some(k) => if k > 0 {
            Some(Tree::Int(k as int))
        } else {
            None
        },
        None => None,
    }
}

/// The body of a request.
pub open spec fn request_body(model_id: Seq<char>, r: ProviderRequest) -> Tree {
    let m = minimax_model(model_id);
    let a = json::empty_obj().put("model"@, Tree::Str(model_id)).put(
        "messages"@,
        Tree::Arr(body_messages(r)),
    ).put("stream"@, Tree::Bool(true));
    let b = put_opt(a, "max_completion_tokens"@, limit_tree(r.max_tokens, m.max_tokens));
    let c = put_opt(b, "temperature"@, micro_tree(m.temperature));
    let d = put_opt(c, "top_p"@, micro_tree(m.top_p));
    let e = match m.top_k {
        Some(k) => d.put("top_k"@, Tree::Int(k as int)),
        None => d,
    };
    let f = match r.tools {
        Some(v) => if v@.len() > 0 {
            e.put("tools"@, chat_format::tools_tree(v@)).put(
                "tool_choice"@,
                chat_format::tool_choice_tree(r.tool_choice),
            )
        } else {
            e
        },
        None => e,
    };
    if m.supports_reasoning == Some(true) {
        f.put("reasoning_split"@, Tree::Bool(true))
    } else {
        f
    }
}

fn push_details(out: &mut Vec<Json>, v: &Option<Vec<ReasoningDetailParam>>)
    ensures
        json::trees(final(out)@) == json::trees(old(out)@) + detail_trees(*v),
{
    match v {
        None => {
            assert(json::trees(out@) =~= json::trees(old(out)@) + detail_trees(*v));
        },
        Some(d) => {
            let ghost start = json::trees(out@);
            let ghost ts = detail_trees(*v);
            let mut i: usize = 0;
            assert(start + ts.take(0) =~= start);
            while i < d.len()
                invariant
                    i <= d@.len(),
                    ts == d@.map_values(|p: ReasoningDetailParam| detail_tree(p.text@)),
                    json::trees(out@) =~= start + ts.take(i as int),
                decreases d@.len() - i,
            {
                let mut m = Json::object();
                m.put("text", Json::str(d[i].text.as_str()));
                assert(ts[i as int] == m@);
                chat_format::push_json(out, m);
                i = i + 1;
            }
            assert(ts.take(i as int) =~= ts);
        },
    }
}

/// The message that an assistant turn becomes.
pub fn convert_assistant_blocks_to_openai(
    role: &str,
    blocks: &Vec<AssistantContentBlock>,
) -> (r: Json)
    ensures
        r@ == assistant_message(role@, blocks@),
{
    let mut content = String::new();
    let mut calls = chat_format::no_json();
    let mut details = chat_format::no_json();
    let mut i: usize = 0;
    assert(blocks@.take(0) =~= Seq::empty());
    while i < blocks.len()
        invariant
            i <= blocks@.len(),
            content@ == turn_text(blocks@.take(i as int)),
            json::trees(calls@) == turn_calls(blocks@.take(i as int)),
            json::trees(details@) == turn_details(blocks@.take(i as int)),
        decreases blocks@.len() - i,
    {
        proof {
            assert(blocks@.take(i + 1).drop_last() =~= blocks@.take(i as int));
            assert(blocks@.take(i + 1).last() == blocks@[i as int]);
        }
        match &blocks[i] {
            AssistantContentBlock::Text(t) => {
                if !content.as_str().is_empty() {
                    text::push_text(&mut content, "\n");
                }
                text::push_text(&mut content, t.text.as_str());
                push_details(&mut details, &t.reasoning_details);
            },
            AssistantContentBlock::ToolUse(t) => {
                let arguments = json::print(&t.input);
                let mut f = Json::object();
                f.put("name", Json::str(t.name.as_str()));
                f.put("arguments", Json::str(arguments.as_str()));
                let mut m = Json::object();
                m.put("id", Json::str(t.id.as_str()));
                m.put("type", Json::str("function"));
                m.put("function", f);
                chat_format::push_json(&mut calls, m);
                push_details(&mut details, &t.reasoning_details);
            },
            AssistantContentBlock::Thinking(t) => {
                let mut m = Json::object();
                m.put("text", Json::str(t.thinking.as_str()));
                chat_format::push_json(&mut details, m);
            },
            _ => {},
        }
        i = i + 1;
    }
    assert(blocks@.take(i as int) =~= blocks@);
    let mut m = chat_format::make_message(role, Json::Str(content));
    if calls.len() > 0 {
        m.put("tool_calls", Json::array(calls));
    }
    if details.len() > 0 {
        m.put("reasoning_details", Json::array(details));
    }
    m
}

/// The messages that a turn becomes. Each tool result is a message of its own, so a
/// user turn may become several.
pub fn convert_message_to_openai(msg: &StorageMessage) -> (r: Vec<Json>)
    ensures
        json::trees(r@) == turn_messages(*msg),
{
    let role = chat_format::role_text(msg.role);
    match &msg.content {
        MessageContent::Text(t) => {
            let mut one = chat_format::no_json();
            chat_format::push_json(
                &mut one,
                chat_format::make_message(role, Json::str(t.as_str())),
            );
            assert(json::trees(one@) =~= turn_messages(*msg));
            one
        },
        MessageContent::UserBlocks(b) => convert_user_blocks_to_openai(role, b),
        MessageContent::AssistantBlocks(b) => {
            let mut one = chat_format::no_json();
            chat_format::push_json(&mut one, convert_assistant_blocks_to_openai(role, b));
            assert(json::trees(one@) =~= turn_messages(*msg));
            one
        },
    }
}

/// The messages that a user turn becomes: its content, then its tool results.
pub fn convert_user_blocks_to_openai(
    role: &str,
    blocks: &Vec<crate::providers::types::UserContentBlock>,
) -> (r: Vec<Json>)
    ensures
        json::trees(r@) == chat_format::user_messages(role@, blocks@, false, false),
{
    chat_format::make_user_messages(role, blocks, false, false)
}

} // verus!
