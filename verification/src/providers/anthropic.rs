//! Anthropic: requests to its messages endpoint, and its models.

use crate::json;
use crate::json::{Json, Tree};
use crate::providers::chat_format;
use crate::providers::types;
use crate::providers::types::{
    AssistantContentBlock, DocumentSource, ImageSource, MessageContent, Model, ModelFamily, ModelInfo,
    ProviderModel, ProviderRequest, StorageMessage, ToolChoice, ToolDefinition, ToolResultContent,
    ToolResultContentBlock, UserContentBlock,
};
use crate::text;
use vstd::prelude::*;

verus! {

/// Configuration for the Anthropic provider.
pub struct AnthropicConfig {
    pub api_key: String,
    pub base_url: Option<String>,
    pub model_id: String,
    pub model_info: Option<ModelInfo>,
    pub thinking_budget_tokens: Option<u32>,
    /// What Anthropic's models are called.
    pub family: ModelFamily,
}

/// Anthropic API provider.
pub struct AnthropicProvider {
    pub config: AnthropicConfig,
}

// ---------------------------------------------------------------------------
// Model ids
// ---------------------------------------------------------------------------

/// A model id without the suffixes `:fast` and `:1m`, in whatever order they stand.
pub open spec fn sanitized(id: Seq<char>) -> Seq<char>
    decreases id.len(),
{
    proof {
        reveal_strlit(":fast");
        reveal_strlit(":1m");
    }
    if text::ends(id, ":fast"@) {
        sanitized(id.take(id.len() - ":fast"@.len()))
    } else if text::ends(id, ":1m"@) {
        sanitized(id.take(id.len() - ":1m"@.len()))
    } else {
        id
    }
}

/// A sanitized id has neither suffix, begins the id that it was made of, and stays as
/// it is when it is sanitized again.
pub proof fn law_sanitized(id: Seq<char>)
    ensures
        !text::ends(sanitized(id), ":fast"@),
        !text::ends(sanitized(id), ":1m"@),
        text::begins(id, sanitized(id)),
        sanitized(sanitized(id)) == sanitized(id),
    decreases id.len(),
{
    reveal_strlit(":fast");
    reveal_strlit(":1m");
    if text::ends(id, ":fast"@) {
        let t = id.take(id.len() - ":fast"@.len());
        law_sanitized(t);
        assert(id.subrange(0, sanitized(t).len() as int) =~= t.subrange(
            0,
            sanitized(t).len() as int,
        ));
    } else if text::ends(id, ":1m"@) {
        let t = id.take(id.len() - ":1m"@.len());
        law_sanitized(t);
        assert(id.subrange(0, sanitized(t).len() as int) =~= t.subrange(
            0,
            sanitized(t).len() as int,
        ));
    } else {
        assert(id.subrange(0, id.len() as int) =~= id);
    }
}

/// The model id asks for the fast mode.
pub open spec fn wants_fast(id: Seq<char>) -> bool {
    text::ends(id, ":fast"@) || text::has(id, ":fast:"@)
}

/// The model id asks for the long context window.
pub open spec fn wants_long(id: Seq<char>) -> bool {
    text::ends(id, ":1m"@) || text::has(id, ":1m:"@)
}

/// A model id without its suffixes.
pub fn sanitize_id(id: &str) -> (r: String)
    ensures
        r@ == sanitized(id@),
{
    let mut cur = id.to_owned();
    let mut going = true;
    proof {
        reveal_strlit(":fast");
        reveal_strlit(":1m");
    }
    while going
        invariant
            sanitized(cur@) == sanitized(id@),
            !going ==> sanitized(cur@) == cur@,
            ":fast"@.len() == 5,
            ":1m"@.len() == 3,
        decreases
            if going {
                1int
            } else {
                0int
            },
            cur@.len(),
    {
        if let Some(rest) = text::strip_suffix(cur.as_str(), ":fast") {
            cur = rest;
        } else if let Some(rest) = text::strip_suffix(cur.as_str(), ":1m") {
            cur = rest;
        } else {
            going = false;
        }
    }
    cur
}

/// The description that the models share.
pub open spec fn common_model() -> Model {
    Model {
        context_window: Some(200_000),
        supports_images: Some(true),
        supports_prompt_cache: true,
        supports_tools: Some(true),
        ..types::blank_model()
    }
}

/// The description of a model, by the size that its id names; `word` is the word of the
/// family.
pub open spec fn anthropic_model(id: Seq<char>, word: Seq<char>) -> Model {
    if text::has(id, "opus"@) {
        Model {
            name: Some(word + "-opus-4-6"@),
            max_tokens: Some(128_000),
            supports_reasoning: Some(true),
            input_price: Some(5_000_000),
            output_price: Some(25_000_000),
            cache_writes_price: Some(6_250_000),
            cache_reads_price: Some(500_000),
            ..common_model()
        }
    } else if text::has(id, "haiku"@) {
        Model {
            name: Some(word + "-haiku-4-5-20251001"@),
            max_tokens: Some(64_000),
            supports_reasoning: Some(false),
            input_price: Some(1_000_000),
            output_price: Some(5_000_000),
            cache_writes_price: Some(1_250_000),
            cache_reads_price: Some(100_000),
            ..common_model()
        }
    } else {
        Model {
            name: Some(word + "-sonnet-4-6"@),
            max_tokens: Some(64_000),
            supports_reasoning: Some(true),
            input_price: Some(3_000_000),
            output_price: Some(15_000_000),
            cache_writes_price: Some(3_750_000),
            cache_reads_price: Some(300_000),
            ..common_model()
        }
    }
}

/// The description of a model.
pub fn get_anthropic_model_info(model_id: &str, family: &ModelFamily) -> (r: ModelInfo)
    ensures
        r@ == anthropic_model(model_id@, family.word@),
{
    let mut m = ModelInfo::default();
    m.context_window = Some(200_000);
    m.supports_images = Some(true);
    m.supports_prompt_cache = true;
    m.supports_tools = Some(true);
    if text::contains(model_id, "opus") {
        m.name = Some(family.id("-opus-4-6"));
        m.max_tokens = Some(128_000);
        m.supports_reasoning = Some(true);
        m.input_price = Some(5_000_000);
        m.output_price = Some(25_000_000);
        m.cache_writes_price = Some(6_250_000);
        m.cache_reads_price = Some(500_000);
    } else if text::contains(model_id, "haiku") {
        m.name = Some(family.id("-haiku-4-5-20251001"));
        m.max_tokens = Some(64_000);
        m.supports_reasoning = Some(false);
        m.input_price = Some(1_000_000);
        m.output_price = Some(5_000_000);
        m.cache_writes_price = Some(1_250_000);
        m.cache_reads_price = Some(100_000);
    } else {
        m.name = Some(family.id("-sonnet-4-6"));
        m.max_tokens = Some(64_000);
        m.supports_reasoning = Some(true);
        m.input_price = Some(3_000_000);
        m.output_price = Some(15_000_000);
        m.cache_writes_price = Some(3_750_000);
        m.cache_reads_price = Some(300_000);
    }
    m
}

// ---------------------------------------------------------------------------
// Content
// ---------------------------------------------------------------------------

/// A source that holds its data itself.
pub open spec fn data_source(media_type: Seq<char>, data: Seq<char>) -> Tree {
    json::empty_obj().put("type"@, Tree::Str("base64"@)).put(
        "media_type"@,
        Tree::Str(media_type),
    ).put("data"@, Tree::Str(data))
}

/// A source by its address.
pub open spec fn url_source(url: Seq<char>) -> Tree {
    json::empty_obj().put("type"@, Tree::Str("url"@)).put("url"@, Tree::Str(url))
}

/// A block of a kind with a source.
pub open spec fn sourced(kind: Seq<char>, source: Tree) -> Tree {
    json::empty_obj().put("type"@, Tree::Str(kind)).put("source"@, source)
}

fn make_data_source(media_type: &str, data: &str) -> (r: Json)
    ensures
        r@ == data_source(media_type@, data@),
{
    let mut m = Json::object();
    m.put("type", Json::str("base64"));
    m.put("media_type", Json::str(media_type));
    m.put("data", Json::str(data));
    m
}

fn make_url_source(url: &str) -> (r: Json)
    ensures
        r@ == url_source(url@),
{
    let mut m = Json::object();
    m.put("type", Json::str("url"));
    m.put("url", Json::str(url));
    m
}

fn make_sourced(kind: &str, source: Json) -> (r: Json)
    ensures
        r@ == sourced(kind@, source@),
{
    let mut m = Json::object();
    m.put("type", Json::str(kind));
    m.put("source", source);
    m
}

/// An image.
pub open spec fn image_block(s: ImageSource) -> Tree {
    match s {
        ImageSource::Base64 { media_type, data } => sourced(
            "image"@,
            data_source(media_type@, data@),
        ),
        ImageSource::Url { url } => sourced("image"@, url_source(url@)),
    }
}

fn make_image_block(s: &ImageSource) -> (r: Json)
    ensures
        r@ == image_block(*s),
{
    match s {
        ImageSource::Base64 { media_type, data } => make_sourced(
            "image",
            make_data_source(media_type.as_str(), data.as_str()),
        ),
        ImageSource::Url { url } => make_sourced("image", make_url_source(url.as_str())),
    }
}

/// A document: a text as text, data of an image type as an image, the rest as a
/// document.
pub open spec fn document_block(s: DocumentSource) -> Tree {
    match s {
        DocumentSource::Text { text } => chat_format::text_part(text@),
        DocumentSource::Base64 { media_type, data } => sourced(
            if text::begins(media_type@, "image/"@) {
                "image"@
            } else {
                "document"@
            },
            data_source(media_type@, data@),
        ),
        DocumentSource::Url { url } => sourced("document"@, url_source(url@)),
    }
}

fn make_document_block(s: &DocumentSource) -> (r: Json)
    ensures
        r@ == document_block(*s),
{
    match s {
        DocumentSource::Text { text } => chat_format::make_text_part(text.as_str()),
        DocumentSource::Base64 { media_type, data } => make_sourced(
            if text::starts_with(media_type.as_str(), "image/") {
                "image"
            } else {
                "document"
            },
            make_data_source(media_type.as_str(), data.as_str()),
        ),
        DocumentSource::Url { url } => make_sourced("document", make_url_source(url.as_str())),
    }
}

/// A block of a tool result.
pub open spec fn result_block(b: ToolResultContentBlock) -> Tree {
    match b {
        ToolResultContentBlock::Text { text } => chat_format::text_part(text@),
        ToolResultContentBlock::Image { source } => image_block(source),
    }
}

/// The content of a tool result.
pub open spec fn result_content(c: ToolResultContent) -> Tree {
    match c {
        ToolResultContent::Text(t) => Tree::Arr(seq![chat_format::text_part(t@)]),
        ToolResultContent::Blocks(v) => Tree::Arr(
            v@.map_values(|b: ToolResultContentBlock| result_block(b)),
        ),
    }
}

fn make_result_content(c: &ToolResultContent) -> (r: Json)
    ensures
        r@ == result_content(*c),
{
    let mut out = chat_format::no_json();
    match c {
        ToolResultContent::Text(t) => {
            chat_format::push_json(&mut out, chat_format::make_text_part(t.as_str()));
            assert(json::trees(out@) =~= seq![chat_format::text_part(t@)]);
        },
        ToolResultContent::Blocks(v) => {
            let ghost ts = v@.map_values(|b: ToolResultContentBlock| result_block(b));
            let mut i: usize = 0;
            while i < v.len()
                invariant
                    i <= v@.len(),
                    ts == v@.map_values(|b: ToolResultContentBlock| result_block(b)),
                    json::trees(out@) =~= ts.take(i as int),
                decreases v@.len() - i,
            {
                let item = match &v[i] {
                    ToolResultContentBlock::Text { text } => chat_format::make_text_part(
                        text.as_str(),
                    ),
                    ToolResultContentBlock::Image { source } => make_image_block(source),
                };
                assert(ts[i as int] == item@);
                chat_format::push_json(&mut out, item);
                i = i + 1;
            }
            assert(ts.take(i as int) =~= ts);
        },
    }
    Json::array(out)
}

/// A block of a user turn.
pub open spec fn user_block(b: UserContentBlock) -> Tree {
    match b {
        UserContentBlock::Text(t) => chat_format::text_part(t.text@),
        UserContentBlock::Image(i) => image_block(i.source),
        UserContentBlock::ToolResult(r) => json::empty_obj().put(
            "type"@,
            Tree::Str("tool_result"@),
        ).put("tool_use_id"@, Tree::Str(r.tool_use_id@)).put("content"@, result_content(r.content)),
        UserContentBlock::Document(d) => document_block(d.source),
    }
}

/// A block of an assistant turn.
pub open spec fn assistant_block(b: AssistantContentBlock) -> Tree {
    match b {
        AssistantContentBlock::Text(t) => chat_format::text_part(t.text@),
        AssistantContentBlock::Image(i) => image_block(i.source),
        AssistantContentBlock::ToolUse(t) => json::empty_obj().put(
            "type"@,
            Tree::Str("tool_use"@),
        ).put("id"@, Tree::Str(t.id@)).put("name"@, Tree::Str(t.name@)).put("input"@, t.input@),
        AssistantContentBlock::Thinking(t) => json::empty_obj().put(
            "type"@,
            Tree::Str("thinking"@),
        ).put("thinking"@, Tree::Str(t.thinking@)).put("signature"@, Tree::Str(t.signature@)),
        AssistantContentBlock::RedactedThinking(t) => json::empty_obj().put(
            "type"@,
            Tree::Str("redacted_thinking"@),
        ).put("data"@, Tree::Str(t.data@)),
        AssistantContentBlock::Document(d) => document_block(d.source),
    }
}

/// The mark after which a prompt is cached.
pub open spec fn breakpoint() -> Tree {
    json::empty_obj().put("type"@, Tree::Str("ephemeral"@))
}

fn make_breakpoint() -> (r: Json)
    ensures
        r@ == breakpoint(),
{
    let mut m = Json::object();
    m.put("type", Json::str("ephemeral"));
    m
}

/// The blocks with a mark on the last one.
pub open spec fn marked(blocks: Seq<Tree>, mark: bool) -> Seq<Tree> {
    if mark && blocks.len() > 0 {
        blocks.drop_last().push(blocks.last().put("cache_control"@, breakpoint()))
    } else {
        blocks
    }
}

/// A turn of `total` is marked: the model caches prompts, and the turn is one of the
/// last two.
pub open spec fn is_marked(caches: bool, index: int, total: int) -> bool {
    caches && index >= total - 2
}

/// The content of a user turn.
pub open spec fn user_content(blocks: Seq<UserContentBlock>, mark: bool) -> Seq<Tree> {
    marked(blocks.map_values(|b: UserContentBlock| user_block(b)), mark)
}

/// The content of an assistant turn.
pub open spec fn assistant_content(blocks: Seq<AssistantContentBlock>, mark: bool) -> Seq<Tree> {
    marked(blocks.map_values(|b: AssistantContentBlock| assistant_block(b)), mark)
}

/// Puts the mark on the last block.
fn mark_last(blocks: Vec<Json>, mark: bool) -> (r: Vec<Json>)
    ensures
        json::trees(r@) == marked(json::trees(blocks@), mark),
{
    let mut out = blocks;
    let ghost ts = json::trees(out@);
    if mark {
        let last = out.pop();
        if let Some(b) = last {
            let mut item = b;
            item.put("cache_control", make_breakpoint());
            assert(json::trees(out@) =~= ts.drop_last());
            chat_format::push_json(&mut out, item);
        }
    }
    out
}

/// The content of a user turn. The last block of each of the last two turns is marked,
/// where the model caches prompts.
pub fn convert_user_blocks(
    blocks: &Vec<UserContentBlock>,
    supports_cache: bool,
    msg_index: usize,
    total_messages: usize,
) -> (r: Vec<Json>)
    ensures
        json::trees(r@) == user_content(
            blocks@,
            is_marked(supports_cache, msg_index as int, total_messages as int),
        ),
{
    let ghost ts = blocks@.map_values(|b: UserContentBlock| user_block(b));
    let mut out = chat_format::no_json();
    let mut i: usize = 0;
    while i < blocks.len()
        invariant
            i <= blocks@.len(),
            ts == blocks@.map_values(|b: UserContentBlock| user_block(b)),
            json::trees(out@) =~= ts.take(i as int),
        decreases blocks@.len() - i,
    {
        let item = match &blocks[i] {
            UserContentBlock::Text(t) => chat_format::make_text_part(t.text.as_str()),
            UserContentBlock::Image(img) => make_image_block(&img.source),
            UserContentBlock::ToolResult(t) => {
                let mut m = Json::object();
                m.put("type", Json::str("tool_result"));
                m.put("tool_use_id", Json::str(t.tool_use_id.as_str()));
                m.put("content", make_result_content(&t.content));
                m
            },
            UserContentBlock::Document(d) => make_document_block(&d.source),
        };
        assert(ts[i as int] == item@);
        chat_format::push_json(&mut out, item);
        i = i + 1;
    }
    assert(ts.take(i as int) =~= ts);
    mark_last(out, supports_cache && msg_index >= total_messages.saturating_sub(2))
}

/// The content of an assistant turn, marked as that of a user turn is.
pub fn convert_assistant_blocks(
    blocks: &Vec<AssistantContentBlock>,
    supports_cache: bool,
    msg_index: usize,
    total_messages: usize,
) -> (r: Vec<Json>)
    ensures
        json::trees(r@) == assistant_content(
            blocks@,
            is_marked(supports_cache, msg_index as int, total_messages as int),
        ),
{
    let ghost ts = blocks@.map_values(|b: AssistantContentBlock| assistant_block(b));
    let mut out = chat_format::no_json();
    let mut i: usize = 0;
    while i < blocks.len()
        invariant
            i <= blocks@.len(),
            ts == blocks@.map_values(|b: AssistantContentBlock| assistant_block(b)),
            json::trees(out@) =~= ts.take(i as int),
        decreases blocks@.len() - i,
    {
        let item = match &blocks[i] {
            AssistantContentBlock::Text(t) => chat_format::make_text_part(t.text.as_str()),
            AssistantContentBlock::Image(img) => make_image_block(&img.source),
            AssistantContentBlock::ToolUse(t) => {
                let mut m = Json::object();
                m.put("type", Json::str("tool_use"));
                m.put("id", Json::str(t.id.as_str()));
                m.put("name", Json::str(t.name.as_str()));
                m.put("input", t.input.copy());
                m
            },
            AssistantContentBlock::Thinking(t) => {
                let mut m = Json::object();
                m.put("type", Json::str("thinking"));
                m.put("thinking", Json::str(t.thinking.as_str()));
                m.put("signature", Json::str(t.signature.as_str()));
                m
            },
            AssistantContentBlock::RedactedThinking(t) => {
                let mut m = Json::object();
                m.put("type", Json::str("redacted_thinking"));
                m.put("data", Json::str(t.data.as_str()));
                m
            },
            AssistantContentBlock::Document(d) => make_document_block(&d.source),
        };
        assert(ts[i as int] == item@);
        chat_format::push_json(&mut out, item);
        i = i + 1;
    }
    assert(ts.take(i as int) =~= ts);
    mark_last(out, supports_cache && msg_index >= total_messages.saturating_sub(2))
}

// ---------------------------------------------------------------------------
// Requests
// ---------------------------------------------------------------------------

/// The content of a turn. A turn that is a plain text is never marked.
pub open spec fn turn_content(m: StorageMessage, mark: bool) -> Seq<Tree> {
    match m.content {
        MessageContent::Text(t) => seq![chat_format::text_part(t@)],
        MessageContent::UserBlocks(b) => user_content(b@, mark),
        MessageContent::AssistantBlocks(b) => assistant_content(b@, mark),
    }
}

/// The message of a turn.
pub open spec fn turn_message(m: StorageMessage, mark: bool) -> Tree {
    chat_format::message(chat_format::role_name(m.role), Tree::Arr(turn_content(m, mark)))
}

/// The messages of a request.
pub open spec fn body_messages(v: Seq<StorageMessage>, caches: bool) -> Seq<Tree> {
    Seq::new(
        v.len(),
        |i: int| turn_message(v[i], is_marked(caches, i, v.len() as int)),
    )
}

/// The system prompt of a request.
pub open spec fn system_content(prompt: Seq<char>, caches: bool) -> Seq<Tree> {
    marked(seq![chat_format::text_part(prompt)], caches)
}

/// A tool as the endpoint takes it.
pub open spec fn tool_tree(t: ToolDefinition) -> Tree {
    json::empty_obj().put("name"@, Tree::Str(t.function.name@)).put(
        "description"@,
        Tree::Str(t.function.description@),
    ).put("input_schema"@, t.function.parameters@)
}

/// A choice of tools by its kind.
pub open spec fn choice_kind(kind: Seq<char>) -> Tree {
    json::empty_obj().put("type"@, Tree::Str(kind))
}

/// The choice of tools; by default the model decides.
pub open spec fn choice_tree(c: Option<ToolChoice>) -> Tree {
    match c {
        None => choice_kind("auto"@),
        Some(ToolChoice::Auto) => choice_kind("auto"@),
        Some(ToolChoice::Required) => choice_kind("any"@),
        Some(ToolChoice::NoTool) => choice_kind("none"@),
        Some(ToolChoice::Named(n)) => choice_kind("tool"@).put("name"@, Tree::Str(n@)),
    }
}

/// The limit on the answer: of the request if it is not zero, else of the model, else
/// 8192.
pub open spec fn answer_limit(asked: Option<u32>, model: Option<u32>) -> u32 {
    if asked is Some && asked->0 > 0 {
        asked->0
    } else {
        match model {
            Some(n) => n,
            None => 8192,
        }
    }
}

/// The body of a request.
pub open spec fn request_body(id: Seq<char>, m: Model, budget: u32, r: ProviderRequest) -> Tree {
    let model_id = sanitized(id);
    let reasons = m.supports_reasoning == Some(true) && budget != 0;
    let a = json::empty_obj().put("model"@, Tree::Str(model_id)).put(
        "max_tokens"@,
        Tree::Int(answer_limit(r.max_tokens, m.max_tokens) as int),
    ).put("system"@, Tree::Arr(system_content(r.system_prompt@, m.supports_prompt_cache))).put(
        "messages"@,
        Tree::Arr(body_messages(r.messages@, m.supports_prompt_cache)),
    ).put("stream"@, Tree::Bool(true));
    let b = if !reasons {
        a.put("temperature"@, Tree::Int(0))
    } else {
        a
    };
    let c = if wants_fast(id) {
        b.put("speed"@, Tree::Str("fast"@))
    } else {
        b
    };
    let d = if reasons {
        c.put(
            "thinking"@,
            json::empty_obj().put(
                "type"@,
                Tree::Str(
                    if text::has(model_id, "opus-4-7"@) || text::has(model_id, "opus-4.7"@) {
                        "adaptive"@
                    } else {
                        "enabled"@
                    },
                ),
            ).put("budget_tokens"@, Tree::Int(budget as int)),
        )
    } else {
        c
    };
    match r.tools {
        Some(v) => if v@.len() > 0 {
            d.put("tools"@, Tree::Arr(v@.map_values(|t: ToolDefinition| tool_tree(t)))).put(
                "tool_choice"@,
                choice_tree(r.tool_choice),
            )
        } else {
            d
        },
        None => d,
    }
}

fn make_tools(v: &Vec<ToolDefinition>) -> (r: Json)
    ensures
        r@ == Tree::Arr(v@.map_values(|t: ToolDefinition| tool_tree(t))),
{
    let mut out = chat_format::no_json();
    let ghost ts = v@.map_values(|t: ToolDefinition| tool_tree(t));
    let mut i: usize = 0;
    while i < v.len()
        invariant
            i <= v@.len(),
            ts == v@.map_values(|t: ToolDefinition| tool_tree(t)),
            json::trees(out@) =~= ts.take(i as int),
        decreases v@.len() - i,
    {
        let t = &v[i];
        let mut m = Json::object();
        m.put("name", Json::str(t.function.name.as_str()));
        m.put("description", Json::str(t.function.description.as_str()));
        m.put("input_schema", t.function.parameters.copy());
        assert(ts[i as int] == m@);
        chat_format::push_json(&mut out, m);
        i = i + 1;
    }
    assert(ts.take(i as int) =~= ts);
    Json::array(out)
}

fn make_choice(c: &Option<ToolChoice>) -> (r: Json)
    ensures
        r@ == choice_tree(*c),
{
    let mut m = Json::object();
    match c {
        None => {
            m.put("type", Json::str("auto"));
        },
        Some(ToolChoice::Auto) => {
            m.put("type", Json::str("auto"));
        },
        Some(ToolChoice::Required) => {
            m.put("type", Json::str("any"));
        },
        Some(ToolChoice::NoTool) => {
            m.put("type", Json::str("none"));
        },
        Some(ToolChoice::Named(n)) => {
            m.put("type", Json::str("tool"));
            m.put("name", Json::str(n.as_str()));
        },
    }
    m
}

/// The headers of a request.
pub open spec fn request_headers(key: Seq<char>, id: Seq<char>) -> Seq<(Seq<char>, Seq<char>)> {
    let a = seq![
        ("content-type"@, "application/json"@),
        ("anthropic-version"@, "2025-04-14"@),
    ];
    let b = if key.len() > 0 {
        a.push(("x-api-key"@, key))
    } else {
        a
    };
    if wants_fast(id) && wants_long(id) {
        b.push(("anthropic-beta"@, "fast-mode-2026-02-01"@ + ","@ + "context-1m-2025-08-07"@))
    } else if wants_fast(id) {
        b.push(("anthropic-beta"@, "fast-mode-2026-02-01"@))
    } else if wants_long(id) {
        b.push(("anthropic-beta"@, "context-1m-2025-08-07"@))
    } else {
        b
    }
}

fn push_header(v: &mut Vec<(String, String)>, name: &str, value: &str)
    ensures
        text::pair_texts(final(v)@) == text::pair_texts(old(v)@).push((name@, value@)),
{
    v.push((name.to_owned(), value.to_owned()));
    assert(text::pair_texts(v@) =~= text::pair_texts(old(v)@).push((name@, value@)));
}

fn asks_fast(id: &str) -> (r: bool)
    ensures
        r == wants_fast(id@),
{
    text::ends_with(id, ":fast") || text::contains(id, ":fast:")
}

/// The address of the endpoint: a given one that is not empty, or Anthropic's own.
pub open spec fn address(base_url: Option<Seq<char>>) -> Seq<char> {
    match base_url {
        Some(u) => if u.len() > 0 {
            u
        } else {
            "https://api.anthropic.com/v1"@
        },
        None => "https://api.anthropic.com/v1"@,
    }
}

impl AnthropicProvider {
    /// A provider with a configuration.
    pub fn new(config: AnthropicConfig) -> (r: AnthropicProvider)
        ensures
            r.config == config,
    {
        AnthropicProvider { config }
    }

    /// The headers of a request.
    pub fn build_headers(&self) -> (r: Vec<(String, String)>)
        ensures
            text::pair_texts(r@) == request_headers(
                self.config.api_key@,
                self.config.model_id@,
            ),
    {
        let mut out: Vec<(String, String)> = Vec::new();
        assert(text::pair_texts(out@) =~= Seq::empty());
        push_header(&mut out, "content-type", "application/json");
        push_header(&mut out, "anthropic-version", "2025-04-14");
        assert(text::pair_texts(out@) =~= seq![
            ("content-type"@, "application/json"@),
            ("anthropic-version"@, "2025-04-14"@),
        ]);
        if !self.config.api_key.as_str().is_empty() {
            push_header(&mut out, "x-api-key", self.config.api_key.as_str());
        }
        let id = self.config.model_id.as_str();
        let fast = asks_fast(id);
        let long = text::ends_with(id, ":1m") || text::contains(id, ":1m:");
        if fast && long {
            let mut both = "fast-mode-2026-02-01".to_owned();
            text::push_text(&mut both, ",");
            text::push_text(&mut both, "context-1m-2025-08-07");
            push_header(&mut out, "anthropic-beta", both.as_str());
        } else if fast {
            push_header(&mut out, "anthropic-beta", "fast-mode-2026-02-01");
        } else if long {
            push_header(&mut out, "anthropic-beta", "context-1m-2025-08-07");
        }
        out
    }

    /// The address for messages.
    pub fn messages_url(&self) -> (r: String)
        ensures
            r@ == address(text::opt(self.config.base_url)) + "/messages"@,
    {
        let mut s = self.base_url();
        text::push_text(&mut s, "/messages");
        s
    }

    /// The address of the endpoint.
    pub fn base_url(&self) -> (r: String)
        ensures
            r@ == address(text::opt(self.config.base_url)),
    {
        if let Some(u) = &self.config.base_url {
            if !u.as_str().is_empty() {
                return u.clone();
            }
        }
        "https://api.anthropic.com/v1".to_owned()
    }

    /// The model id without its suffixes.
    pub fn sanitize_model_id(&self) -> (r: String)
        ensures
            r@ == sanitized(self.config.model_id@),
    {
        sanitize_id(self.config.model_id.as_str())
    }

    /// The description of the model: as configured, or else of the table.
    pub open spec fn model(self) -> Model {
        match self.config.model_info {
            Some(m) => m@,
            None => anthropic_model(self.config.model_id@, self.config.family.word@),
        }
    }

    /// The model that the provider talks to.
    pub fn get_model(&self) -> (r: ProviderModel)
        ensures
            r.id@ == self.config.model_id@,
            r.info@ == self.model(),
    {
        let info = match &self.config.model_info {
            Some(m) => m.copy(),
            None => get_anthropic_model_info(self.config.model_id.as_str(), &self.config.family),
        };
        ProviderModel { id: self.config.model_id.clone(), info }
    }

    /// The name of the provider.
    pub fn name(&self) -> (r: &'static str)
        ensures
            r@ == "anthropic"@,
    {
        "anthropic"
    }

    /// The body of a request.
    pub fn build_request_body(&self, request: &ProviderRequest) -> (r: Json)
        ensures
            r@ == request_body(
                self.config.model_id@,
                self.model(),
                match self.config.thinking_budget_tokens {
                    Some(n) => n,
                    None => 0,
                },
                *request,
            ),
    {
        let model_id = self.sanitize_model_id();
        let info = self.get_model().info;
        let budget: u32 = match self.config.thinking_budget_tokens {
            Some(n) => n,
            None => 0,
        };
        let can_reason = match info.supports_reasoning {
            Some(b) => b,
            None => false,
        };
        let reasons = can_reason && budget != 0;
        let caches = info.supports_prompt_cache;
        let model_limit: u32 = match info.max_tokens {
            Some(n) => n,
            None => 8192,
        };
        let limit: u32 = match request.max_tokens {
            Some(n) => {
                if n > 0 {
                    n
                } else {
                    model_limit
                }
            },
            None => model_limit,
        };
        let total: usize = request.messages.len();
        let ghost ts = body_messages(request.messages@, caches);
        let mut messages = chat_format::no_json();
        let mut i: usize = 0;
        while i < total
            invariant
                i <= total,
                total == request.messages@.len(),
                ts == body_messages(request.messages@, caches),
                json::trees(messages@) =~= ts.take(i as int),
            decreases total - i,
        {
            let m = &request.messages[i];
            let content = match &m.content {
                MessageContent::Text(t) => {
                    let mut one = chat_format::no_json();
                    chat_format::push_json(&mut one, chat_format::make_text_part(t.as_str()));
                    assert(json::trees(one@) =~= seq![chat_format::text_part(t@)]);
                    one
                },
                MessageContent::UserBlocks(b) => convert_user_blocks(b, caches, i, total),
                MessageContent::AssistantBlocks(b) => convert_assistant_blocks(
                    b,
                    caches,
                    i,
                    total,
                ),
            };
            let item = chat_format::make_message(
                chat_format::role_text(m.role),
                Json::array(content),
            );
            assert(ts[i as int] == item@);
            chat_format::push_json(&mut messages, item);
            i = i + 1;
        }
        assert(ts.take(i as int) =~= ts);
        let mut system = chat_format::no_json();
        chat_format::push_json(
            &mut system,
            chat_format::make_text_part(request.system_prompt.as_str()),
        );
        assert(json::trees(system@) =~= seq![chat_format::text_part(request.system_prompt@)]);
        let system = mark_last(system, caches);
        let mut body = Json::object();
        body.put("model", Json::str(model_id.as_str()));
        body.put("max_tokens", Json::Int(limit as i128));
        body.put("system", Json::array(system));
        body.put("messages", Json::array(messages));
        body.put("stream", Json::Bool(true));
        if !reasons {
            body.put("temperature", Json::Int(0));
        }
        if asks_fast(self.config.model_id.as_str()) {
            body.put("speed", Json::str("fast"));
        }
        if reasons {
            let kind = if text::contains(model_id.as_str(), "opus-4-7") || text::contains(
                model_id.as_str(),
                "opus-4.7",
            ) {
                "adaptive"
            } else {
                "enabled"
            };
            let mut t = Json::object();
            t.put("type", Json::str(kind));
            t.put("budget_tokens", Json::Int(budget as i128));
            body.put("thinking", t);
        }
        if let Some(tools) = &request.tools {
            if tools.len() > 0 {
                body.put("tools", make_tools(tools));
                body.put("tool_choice", make_choice(&request.tool_choice));
            }
        }
        body
    }
}

// ---------------------------------------------------------------------------
// Cache marks
// ---------------------------------------------------------------------------

/// The number of blocks that carry a mark.
pub open spec fn breaks_in(blocks: Seq<Tree>) -> int
    decreases blocks.len(),
{
    if blocks.len() == 0 {
        0
    } else {
        breaks_in(blocks.drop_last()) + (if blocks.last().get("cache_control"@) is Some {
            1int
        } else {
            0
        })
    }
}

/// The number of marked blocks in the first `n` turns of a request.
pub open spec fn turn_breaks(v: Seq<StorageMessage>, caches: bool, n: int) -> int
    decreases n,
{
    if n <= 0 {
        0
    } else {
        turn_breaks(v, caches, n - 1) + breaks_in(
            turn_content(v[n - 1], is_marked(caches, n - 1, v.len() as int)),
        )
    }
}

/// A request holds at most three cache marks, one under the limit of the endpoint: one
/// on the system prompt and one on each of the last two turns. Where the model does not
/// cache prompts it holds none.
pub proof fn law_at_most_three_breakpoints(
    prompt: Seq<char>,
    v: Seq<StorageMessage>,
    caches: bool,
)
    ensures
        breaks_in(system_content(prompt, caches)) + turn_breaks(v, caches, v.len() as int) <= 3,
        !caches ==> breaks_in(system_content(prompt, caches)) + turn_breaks(
            v,
            caches,
            v.len() as int,
        ) == 0,
{
    lemma_text_part_has_no_mark(prompt);
    let one = seq![chat_format::text_part(prompt)];
    assert forall|i: int| 0 <= i < one.len() implies (#[trigger] one[i]).get("cache_control"@) is None by {}
    lemma_marked(one, caches);
    lemma_turn_breaks(v, caches, v.len() as int);
}

proof fn lemma_marked(blocks: Seq<Tree>, mark: bool)
    requires
        forall|i: int| 0 <= i < blocks.len() ==> (#[trigger] blocks[i]).get("cache_control"@) is None,
    ensures
        0 <= breaks_in(marked(blocks, mark)) <= (if mark {
            1int
        } else {
            0
        }),
{
    lemma_no_marks(blocks);
    if mark && blocks.len() > 0 {
        let m = marked(blocks, mark);
        assert(m.drop_last() =~= blocks.drop_last());
        assert forall|i: int| 0 <= i < blocks.drop_last().len() implies (
        #[trigger] blocks.drop_last()[i]).get("cache_control"@) is None by {
            assert(blocks[i].get("cache_control"@) is None);
        }
        lemma_no_marks(blocks.drop_last());
    }
}

proof fn lemma_no_marks(blocks: Seq<Tree>)
    requires
        forall|i: int| 0 <= i < blocks.len() ==> (#[trigger] blocks[i]).get("cache_control"@) is None,
    ensures
        breaks_in(blocks) == 0,
    decreases blocks.len(),
{
    if blocks.len() > 0 {
        let p = blocks.drop_last();
        assert forall|i: int| 0 <= i < p.len() implies (#[trigger] p[i]).get("cache_control"@) is None by {
            assert(blocks[i].get("cache_control"@) is None);
        }
        lemma_no_marks(p);
        assert(blocks[blocks.len() - 1].get("cache_control"@) is None);
    }
}

proof fn lemma_turn_breaks(v: Seq<StorageMessage>, caches: bool, n: int)
    requires
        0 <= n <= v.len(),
    ensures
        0 <= turn_breaks(v, caches, n) <= (if !caches || n <= v.len() - 2 {
            0
        } else if v.len() >= 2 {
            n - (v.len() - 2)
        } else {
            n
        }),
    decreases n,
{
    if n > 0 {
        lemma_turn_breaks(v, caches, n - 1);
        let mark = is_marked(caches, n - 1, v.len() as int);
        match v[n - 1].content {
            MessageContent::Text(t) => {
                lemma_text_part_has_no_mark(t@);
                let one = seq![chat_format::text_part(t@)];
                assert forall|i: int| 0 <= i < one.len() implies (#[trigger] one[i]).get(
                    "cache_control"@,
                ) is None by {}
                lemma_no_marks(one);
            },
            MessageContent::UserBlocks(b) => {
                let ts = b@.map_values(|x: UserContentBlock| user_block(x));
                assert forall|i: int| 0 <= i < ts.len() implies (#[trigger] ts[i]).get(
                    "cache_control"@,
                ) is None by {
                    lemma_user_block_has_no_mark(b@[i]);
                }
                lemma_marked(ts, mark);
            },
            MessageContent::AssistantBlocks(b) => {
                let ts = b@.map_values(|x: AssistantContentBlock| assistant_block(x));
                assert forall|i: int| 0 <= i < ts.len() implies (#[trigger] ts[i]).get(
                    "cache_control"@,
                ) is None by {
                    lemma_assistant_block_has_no_mark(b@[i]);
                }
                lemma_marked(ts, mark);
            },
        }
    }
}

/// A key of another length than `cache_control` adds no mark.
proof fn lemma_put_adds_no_mark(t: Tree, key: Seq<char>, v: Tree)
    requires
        t is Obj,
        t.get("cache_control"@) is None,
        key.len() < 13,
    ensures
        t.put(key, v) is Obj,
        t.put(key, v).get("cache_control"@) is None,
{
    reveal_strlit("cache_control");
    assert("cache_control"@.len() == 13);
    json::law_put_then_get(t, key, v, "cache_control"@);
}

proof fn lemma_keys_are_short()
    ensures
        "type"@.len() < 13,
        "text"@.len() < 13,
        "source"@.len() < 13,
        "tool_use_id"@.len() < 13,
        "content"@.len() < 13,
        "id"@.len() < 13,
        "name"@.len() < 13,
        "input"@.len() < 13,
        "thinking"@.len() < 13,
        "signature"@.len() < 13,
        "data"@.len() < 13,
{
    reveal_strlit("type");
    reveal_strlit("text");
    reveal_strlit("source");
    reveal_strlit("tool_use_id");
    reveal_strlit("content");
    reveal_strlit("id");
    reveal_strlit("name");
    reveal_strlit("input");
    reveal_strlit("thinking");
    reveal_strlit("signature");
    reveal_strlit("data");
}

proof fn lemma_text_part_has_no_mark(t: Seq<char>)
    ensures
        chat_format::text_part(t).get("cache_control"@) is None,
{
    lemma_keys_are_short();
    let e = json::empty_obj();
    lemma_put_adds_no_mark(e, "type"@, Tree::Str("text"@));
    lemma_put_adds_no_mark(e.put("type"@, Tree::Str("text"@)), "text"@, Tree::Str(t));
}

proof fn lemma_sourced_has_no_mark(kind: Seq<char>, source: Tree)
    ensures
        sourced(kind, source).get("cache_control"@) is None,
{
    lemma_keys_are_short();
    let e = json::empty_obj();
    lemma_put_adds_no_mark(e, "type"@, Tree::Str(kind));
    lemma_put_adds_no_mark(e.put("type"@, Tree::Str(kind)), "source"@, source);
}

proof fn lemma_image_has_no_mark(s: ImageSource)
    ensures
        image_block(s).get("cache_control"@) is None,
{
    match s {
        ImageSource::Base64 { media_type, data } => {
            lemma_sourced_has_no_mark("image"@, data_source(media_type@, data@));
        },
        ImageSource::Url { url } => {
            lemma_sourced_has_no_mark("image"@, url_source(url@));
        },
    }
}

proof fn lemma_document_has_no_mark(s: DocumentSource)
    ensures
        document_block(s).get("cache_control"@) is None,
{
    match s {
        DocumentSource::Text { text } => {
            lemma_text_part_has_no_mark(text@);
        },
        DocumentSource::Base64 { media_type, data } => {
            lemma_sourced_has_no_mark("image"@, data_source(media_type@, data@));
            lemma_sourced_has_no_mark("document"@, data_source(media_type@, data@));
        },
        DocumentSource::Url { url } => {
            lemma_sourced_has_no_mark("document"@, url_source(url@));
        },
    }
}

proof fn lemma_user_block_has_no_mark(b: UserContentBlock)
    ensures
        user_block(b).get("cache_control"@) is None,
{
    match b {
        UserContentBlock::Text(t) => {
            lemma_text_part_has_no_mark(t.text@);
        },
        UserContentBlock::Image(i) => {
            lemma_image_has_no_mark(i.source);
        },
        UserContentBlock::ToolResult(r) => {
            lemma_keys_are_short();
            let a = json::empty_obj().put("type"@, Tree::Str("tool_result"@));
            lemma_put_adds_no_mark(json::empty_obj(), "type"@, Tree::Str("tool_result"@));
            let c = a.put("tool_use_id"@, Tree::Str(r.tool_use_id@));
            lemma_put_adds_no_mark(a, "tool_use_id"@, Tree::Str(r.tool_use_id@));
            lemma_put_adds_no_mark(c, "content"@, result_content(r.content));
        },
        UserContentBlock::Document(d) => {
            lemma_document_has_no_mark(d.source);
        },
    }
}

proof fn lemma_assistant_block_has_no_mark(b: AssistantContentBlock)
    ensures
        assistant_block(b).get("cache_control"@) is None,
{
    lemma_keys_are_short();
    let e = json::empty_obj();
    match b {
        AssistantContentBlock::Text(t) => {
            lemma_text_part_has_no_mark(t.text@);
        },
        AssistantContentBlock::Image(i) => {
            lemma_image_has_no_mark(i.source);
        },
        AssistantContentBlock::ToolUse(t) => {
            lemma_put_adds_no_mark(e, "type"@, Tree::Str("tool_use"@));
            let a = e.put("type"@, Tree::Str("tool_use"@));
            lemma_put_adds_no_mark(a, "id"@, Tree::Str(t.id@));
            let c = a.put("id"@, Tree::Str(t.id@));
            lemma_put_adds_no_mark(c, "name"@, Tree::Str(t.name@));
            let d = c.put("name"@, Tree::Str(t.name@));
            lemma_put_adds_no_mark(d, "input"@, t.input@);
        },
        AssistantContentBlock::Thinking(t) => {
            lemma_put_adds_no_mark(e, "type"@, Tree::Str("thinking"@));
            let a = e.put("type"@, Tree::Str("thinking"@));
            lemma_put_adds_no_mark(a, "thinking"@, Tree::Str(t.thinking@));
            let c = a.put("thinking"@, Tree::Str(t.thinking@));
            lemma_put_adds_no_mark(c, "signature"@, Tree::Str(t.signature@));
        },
        AssistantContentBlock::RedactedThinking(t) => {
            lemma_put_adds_no_mark(e, "type"@, Tree::Str("redacted_thinking"@));
            let a = e.put("type"@, Tree::Str("redacted_thinking"@));
            lemma_put_adds_no_mark(a, "data"@, Tree::Str(t.data@));
        },
        AssistantContentBlock::Document(d) => {
            lemma_document_has_no_mark(d.source);
        },
    }
}

} // verus!
