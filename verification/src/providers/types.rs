//! Messages, stream chunks and model descriptions shared by all providers.
//!
//! Decimal quantities are whole numbers of a small unit: temperatures and
//! `top_p` in millionths, prices in millionths of a dollar per million tokens,
//! and costs in millionths of a millionth of a dollar.

use crate::json::{Json, Tree};
use crate::text;
use vstd::prelude::*;

verus! {

/// Maximum size for tool call arguments (128KB).
/// Modern LLMs send 10-100KB tool calls, so this limit prevents memory exhaustion
/// while allowing legitimate large tool arguments. Enforced during streaming assembly.
pub const MAX_TOOL_ARGUMENT_SIZE: usize = 131072;

// ---------------------------------------------------------------------------
// Content blocks
// ---------------------------------------------------------------------------

/// A reasoning detail parameter.
#[derive(Debug, Clone, PartialEq)]
pub struct ReasoningDetailParam {
    pub detail_type: String,
    pub text: String,
    pub signature: String,
    pub format: String,
    pub index: i32,
}

/// Shared fields across all content blocks.
#[derive(Debug, Clone, PartialEq)]
pub struct SharedContentFields {
    /// The call ID associated with this content block.
    pub call_id: Option<String>,
    /// Thought signature (used by Gemini).
    pub signature: Option<String>,
}

/// A text content block.
#[derive(Debug, Clone, PartialEq)]
pub struct TextContentBlock {
    pub text: String,
    pub shared: SharedContentFields,
    /// Reasoning details (only for providers that support them).
    pub reasoning_details: Option<Vec<ReasoningDetailParam>>,
}

/// Source of an image.
#[derive(Debug, Clone, PartialEq)]
pub enum ImageSource {
    Base64 { media_type: String, data: String },
    Url { url: String },
}

/// Source of a document.
#[derive(Debug, Clone, PartialEq)]
pub enum DocumentSource {
    Base64 { media_type: String, data: String },
    Text { text: String },
    Url { url: String },
}

/// Content of a tool result.
#[derive(Debug, Clone, PartialEq)]
pub enum ToolResultContent {
    Text(String),
    Blocks(Vec<ToolResultContentBlock>),
}

/// Individual block inside a tool result.
#[derive(Debug, Clone, PartialEq)]
pub enum ToolResultContentBlock {
    Text { text: String },
    Image { source: ImageSource },
}

/// An image content block.
#[derive(Debug, Clone, PartialEq)]
pub struct ImageContentBlock {
    pub source: ImageSource,
    pub shared: SharedContentFields,
}

/// A tool use block (assistant-side).
#[derive(Debug, PartialEq)]
pub struct ToolUseBlock {
    pub id: String,
    pub name: String,
    pub input: Json,
    pub shared: SharedContentFields,
    pub reasoning_details: Option<Vec<ReasoningDetailParam>>,
}

/// A tool result block (user-side).
#[derive(Debug, Clone, PartialEq)]
pub struct ToolResultBlock {
    pub tool_use_id: String,
    pub content: ToolResultContent,
    pub shared: SharedContentFields,
}

/// A thinking block (assistant-side).
#[derive(Debug, Clone, PartialEq)]
pub struct ThinkingBlock {
    pub thinking: String,
    pub signature: String,
    pub shared: SharedContentFields,
    pub summary: Option<Vec<ReasoningDetailParam>>,
}

/// A redacted thinking block.
#[derive(Debug, Clone, PartialEq)]
pub struct RedactedThinkingBlock {
    pub data: String,
    pub shared: SharedContentFields,
}

/// A document content block.
#[derive(Debug, Clone, PartialEq)]
pub struct DocumentContentBlock {
    pub source: DocumentSource,
    pub shared: SharedContentFields,
}

/// Union of all user content blocks.
#[derive(Debug, Clone, PartialEq)]
pub enum UserContentBlock {
    Text(TextContentBlock),
    Image(ImageContentBlock),
    Document(DocumentContentBlock),
    ToolResult(ToolResultBlock),
}

/// Union of all assistant content blocks.
#[derive(Debug, PartialEq)]
pub enum AssistantContentBlock {
    Text(TextContentBlock),
    Image(ImageContentBlock),
    Document(DocumentContentBlock),
    ToolUse(ToolUseBlock),
    Thinking(ThinkingBlock),
    RedactedThinking(RedactedThinkingBlock),
}

// ---------------------------------------------------------------------------
// Messages
// ---------------------------------------------------------------------------

/// Role of a message participant.
#[derive(Debug, Clone, Copy, PartialEq, Eq, Structural)]
pub enum MessageRole {
    User,
    Assistant,
}

/// Metrics attached to a message.
#[derive(Debug, Clone, Copy, PartialEq)]
pub struct MessageMetrics {
    pub input_tokens: Option<u32>,
    pub output_tokens: Option<u32>,
    pub cache_write_tokens: Option<u32>,
    pub cache_read_tokens: Option<u32>,
    pub cost_usd: Option<u128>,
}

/// Model info attached to a message (internal use only, stripped before sending to providers).
#[derive(Debug, Clone, PartialEq)]
pub struct MessageModelInfo {
    pub provider: String,
    pub model_id: String,
}

/// A storage message.
#[derive(Debug, PartialEq)]
pub struct StorageMessage {
    pub id: Option<String>,
    pub role: MessageRole,
    pub content: MessageContent,
    pub model_info: Option<MessageModelInfo>,
    pub metrics: Option<MessageMetrics>,
    pub ts: Option<u64>,
}

/// Content of a storage message.
#[derive(Debug, PartialEq)]
pub enum MessageContent {
    Text(String),
    UserBlocks(Vec<UserContentBlock>),
    AssistantBlocks(Vec<AssistantContentBlock>),
}

// ---------------------------------------------------------------------------
// Stream chunks
// ---------------------------------------------------------------------------

/// A chunk in the API stream.
#[derive(Debug, PartialEq)]
pub enum ApiStreamChunk {
    Text(ApiStreamTextChunk),
    Reasoning(ApiStreamReasoningChunk),
    /// A tool call whose name is known and whose arguments are still arriving.
    ToolCallStarted { call_id: String, name: String },
    ToolCalls(ApiStreamToolCallsChunk),
    Usage(ApiStreamUsageChunk),
    Error(String),
}

/// Text chunk.
#[derive(Debug, Clone, PartialEq)]
pub struct ApiStreamTextChunk {
    pub text: String,
    pub id: Option<String>,
    pub signature: Option<String>,
}

/// Reasoning/thinking chunk.
#[derive(Debug, PartialEq)]
pub struct ApiStreamReasoningChunk {
    pub reasoning: String,
    pub details: Option<Json>,
    pub signature: Option<String>,
    pub redacted_data: Option<String>,
    pub id: Option<String>,
}

/// Tool call chunk.
#[derive(Debug, Clone, PartialEq)]
pub struct ApiStreamToolCallsChunk {
    pub tool_call: ApiStreamToolCall,
    pub id: Option<String>,
    pub signature: Option<String>,
}

/// Individual tool call in a chunk.
#[derive(Debug, Clone, PartialEq)]
pub struct ApiStreamToolCall {
    pub call_id: Option<String>,
    pub function: ApiStreamToolCallFunction,
    pub signature: Option<String>,
}

/// Function details of a tool call.
#[derive(Debug, Clone, PartialEq)]
pub struct ApiStreamToolCallFunction {
    pub id: Option<String>,
    pub name: Option<String>,
    pub arguments: Option<String>,
}

/// Usage chunk.
#[derive(Debug, Clone, PartialEq)]
pub struct ApiStreamUsageChunk {
    pub input_tokens: u32,
    pub output_tokens: u32,
    pub cache_write_tokens: Option<u32>,
    pub cache_read_tokens: Option<u32>,
    pub reasoning_tokens: Option<u32>,
    pub thoughts_token_count: Option<u32>,
    pub total_cost: Option<u128>,
    pub stop_reason: Option<String>,
    pub id: Option<String>,
}

/// The mathematical value of a usage chunk.
pub struct Usage {
    pub input_tokens: u32,
    pub output_tokens: u32,
    pub cache_write_tokens: Option<u32>,
    pub cache_read_tokens: Option<u32>,
    pub reasoning_tokens: Option<u32>,
    pub thoughts_token_count: Option<u32>,
    pub total_cost: Option<u128>,
    pub stop_reason: Option<Seq<char>>,
    pub id: Option<Seq<char>>,
}

/// The mathematical value of a chunk.
pub enum Chunk {
    Text { text: Seq<char>, id: Option<Seq<char>>, signature: Option<Seq<char>> },
    Reasoning {
        reasoning: Seq<char>,
        details: Option<Tree>,
        signature: Option<Seq<char>>,
        redacted_data: Option<Seq<char>>,
        id: Option<Seq<char>>,
    },
    Started { call_id: Seq<char>, name: Seq<char> },
    ToolCall {
        call_id: Option<Seq<char>>,
        function_id: Option<Seq<char>>,
        name: Option<Seq<char>>,
        arguments: Option<Seq<char>>,
        call_signature: Option<Seq<char>>,
        id: Option<Seq<char>>,
        signature: Option<Seq<char>>,
    },
    Usage(Usage),
    Error(Seq<char>),
}

/// The tree of an optional value.
pub open spec fn opt_tree(j: Option<Json>) -> Option<Tree> {
    match j {
        Some(v) => Some(v@),
        None => None,
    }
}

impl View for ApiStreamUsageChunk {
    type V = Usage;

    open spec fn view(&self) -> Usage {
        Usage {
            input_tokens: self.input_tokens,
            output_tokens: self.output_tokens,
            cache_write_tokens: self.cache_write_tokens,
            cache_read_tokens: self.cache_read_tokens,
            reasoning_tokens: self.reasoning_tokens,
            thoughts_token_count: self.thoughts_token_count,
            total_cost: self.total_cost,
            stop_reason: text::opt(self.stop_reason),
            id: text::opt(self.id),
        }
    }
}

impl View for ApiStreamChunk {
    type V = Chunk;

    open spec fn view(&self) -> Chunk {
        match *self {
            ApiStreamChunk::Text(c) => Chunk::Text {
                text: c.text@,
                id: text::opt(c.id),
                signature: text::opt(c.signature),
            },
            ApiStreamChunk::Reasoning(c) => Chunk::Reasoning {
                reasoning: c.reasoning@,
                details: opt_tree(c.details),
                signature: text::opt(c.signature),
                redacted_data: text::opt(c.redacted_data),
                id: text::opt(c.id),
            },
            ApiStreamChunk::ToolCallStarted { call_id, name } => Chunk::Started {
                call_id: call_id@,
                name: name@,
            },
            ApiStreamChunk::ToolCalls(c) => Chunk::ToolCall {
                call_id: text::opt(c.tool_call.call_id),
                function_id: text::opt(c.tool_call.function.id),
                name: text::opt(c.tool_call.function.name),
                arguments: text::opt(c.tool_call.function.arguments),
                call_signature: text::opt(c.tool_call.signature),
                id: text::opt(c.id),
                signature: text::opt(c.signature),
            },
            ApiStreamChunk::Usage(u) => Chunk::Usage(u@),
            ApiStreamChunk::Error(s) => Chunk::Error(s@),
        }
    }
}

/// The values of a list of chunks.
pub open spec fn chunks(v: Seq<ApiStreamChunk>) -> Seq<Chunk> {
    v.map_values(|c: ApiStreamChunk| c@)
}

/// A plain text chunk.
pub open spec fn text_chunk(t: Seq<char>, id: Option<Seq<char>>) -> Chunk {
    Chunk::Text { text: t, id, signature: None }
}

/// A plain reasoning chunk.
pub open spec fn reasoning_chunk(t: Seq<char>, id: Option<Seq<char>>) -> Chunk {
    Chunk::Reasoning { reasoning: t, details: None, signature: None, redacted_data: None, id }
}

/// Appends a chunk.
pub fn emit(out: &mut Vec<ApiStreamChunk>, c: ApiStreamChunk)
    ensures
        chunks(final(out)@) == chunks(old(out)@).push(c@),
{
    out.push(c);
    assert(chunks(out@) =~= chunks(old(out)@).push(c@));
}

/// The chunk of a finished tool call.
pub open spec fn call_chunk(
    call_id: Seq<char>,
    name: Seq<char>,
    arguments: Seq<char>,
    id: Option<Seq<char>>,
) -> Chunk {
    Chunk::ToolCall {
        call_id: Some(call_id),
        function_id: Some(call_id),
        name: Some(name),
        arguments: Some(arguments),
        call_signature: None,
        id,
        signature: None,
    }
}

/// Appends the chunk of a finished tool call.
pub fn emit_call(
    out: &mut Vec<ApiStreamChunk>,
    call_id: &str,
    name: &str,
    arguments: &str,
    id: &Option<String>,
)
    ensures
        chunks(final(out)@) == chunks(old(out)@).push(
            call_chunk(call_id@, name@, arguments@, text::opt(*id)),
        ),
{
    emit(
        out,
        ApiStreamChunk::ToolCalls(
            ApiStreamToolCallsChunk {
                tool_call: ApiStreamToolCall {
                    call_id: Some(call_id.to_owned()),
                    function: ApiStreamToolCallFunction {
                        id: Some(call_id.to_owned()),
                        name: Some(name.to_owned()),
                        arguments: Some(arguments.to_owned()),
                    },
                    signature: None,
                },
                id: text::copy_opt(id),
                signature: None,
            },
        ),
    );
}

/// Appends an error chunk.
pub fn emit_error(out: &mut Vec<ApiStreamChunk>, message: &str)
    ensures
        chunks(final(out)@) == chunks(old(out)@).push(Chunk::Error(message@)),
{
    emit(out, ApiStreamChunk::Error(message.to_owned()));
}

/// Appends a plain text chunk.
pub fn emit_text(out: &mut Vec<ApiStreamChunk>, t: &str, id: &Option<String>)
    ensures
        chunks(final(out)@) == chunks(old(out)@).push(text_chunk(t@, text::opt(*id))),
{
    emit(
        out,
        ApiStreamChunk::Text(
            ApiStreamTextChunk { text: t.to_owned(), id: text::copy_opt(id), signature: None },
        ),
    );
}

/// Appends a plain reasoning chunk.
pub fn emit_reasoning(out: &mut Vec<ApiStreamChunk>, t: &str, id: &Option<String>)
    ensures
        chunks(final(out)@) == chunks(old(out)@).push(reasoning_chunk(t@, text::opt(*id))),
{
    emit(
        out,
        ApiStreamChunk::Reasoning(
            ApiStreamReasoningChunk {
                reasoning: t.to_owned(),
                details: None,
                signature: None,
                redacted_data: None,
                id: text::copy_opt(id),
            },
        ),
    );
}

// ---------------------------------------------------------------------------
// Model descriptions
// ---------------------------------------------------------------------------

/// Price tier for models with tiered pricing.
#[derive(Debug, Clone, Copy, PartialEq)]
pub struct PriceTier {
    pub token_limit: u64,
    pub price: u64,
}

/// Thinking configuration for a model.
#[derive(Debug, Clone, PartialEq)]
pub struct ThinkingConfig {
    pub max_budget: Option<u32>,
    pub output_price: Option<u64>,
    pub output_price_tiers: Option<Vec<PriceTier>>,
    pub gemini_thinking_level: Option<String>,
    pub supports_thinking_level: Option<bool>,
}

/// Tiered pricing configuration.
#[derive(Debug, Clone, Copy, PartialEq)]
pub struct ModelTier {
    pub context_window: u64,
    pub input_price: Option<u64>,
    pub output_price: Option<u64>,
    pub cache_writes_price: Option<u64>,
    pub cache_reads_price: Option<u64>,
}

/// Model capability information.
#[derive(Debug, Clone, PartialEq)]
pub struct ModelInfo {
    pub name: Option<String>,
    pub max_tokens: Option<u32>,
    pub context_window: Option<u64>,
    pub supports_images: Option<bool>,
    pub supports_prompt_cache: bool,
    pub supports_reasoning: Option<bool>,
    pub input_price: Option<u64>,
    pub output_price: Option<u64>,
    pub image_output_price: Option<u64>,
    pub thinking_config: Option<ThinkingConfig>,
    pub supports_global_endpoint: Option<bool>,
    pub cache_writes_price: Option<u64>,
    pub cache_reads_price: Option<u64>,
    pub description: Option<String>,
    pub tiers: Option<Vec<ModelTier>>,
    pub temperature: Option<u64>,
    pub top_p: Option<u64>,
    pub top_k: Option<u32>,
    pub supports_tools: Option<bool>,
    pub api_format: Option<String>,
}

/// OpenAI-compatible model info extension.
#[derive(Debug, Clone, PartialEq)]
pub struct OpenAiCompatibleModelInfo {
    pub base: ModelInfo,
    pub is_r1_format_required: Option<bool>,
    pub system_role: Option<String>,
    pub supports_reasoning_effort: Option<bool>,
    pub supports_streaming: Option<bool>,
}

/// The mathematical value of a thinking configuration.
pub struct Thinking {
    pub max_budget: Option<u32>,
    pub output_price: Option<u64>,
    pub output_price_tiers: Option<Seq<PriceTier>>,
    pub gemini_thinking_level: Option<Seq<char>>,
    pub supports_thinking_level: Option<bool>,
}

/// The mathematical value of a model description.
pub struct Model {
    pub name: Option<Seq<char>>,
    pub max_tokens: Option<u32>,
    pub context_window: Option<u64>,
    pub supports_images: Option<bool>,
    pub supports_prompt_cache: bool,
    pub supports_reasoning: Option<bool>,
    pub input_price: Option<u64>,
    pub output_price: Option<u64>,
    pub image_output_price: Option<u64>,
    pub thinking_config: Option<Thinking>,
    pub supports_global_endpoint: Option<bool>,
    pub cache_writes_price: Option<u64>,
    pub cache_reads_price: Option<u64>,
    pub description: Option<Seq<char>>,
    pub tiers: Option<Seq<ModelTier>>,
    pub temperature: Option<u64>,
    pub top_p: Option<u64>,
    pub top_k: Option<u32>,
    pub supports_tools: Option<bool>,
    pub api_format: Option<Seq<char>>,
}

/// The mathematical value of an OpenAI-compatible model description.
pub struct CompatModel {
    pub base: Model,
    pub is_r1_format_required: Option<bool>,
    pub system_role: Option<Seq<char>>,
    pub supports_reasoning_effort: Option<bool>,
    pub supports_streaming: Option<bool>,
}

/// The items of an optional list.
pub open spec fn opt_items<T>(v: Option<Vec<T>>) -> Option<Seq<T>> {
    match v {
        Some(w) => Some(w@),
        None => None,
    }
}

impl View for ThinkingConfig {
    type V = Thinking;

    open spec fn view(&self) -> Thinking {
        Thinking {
            max_budget: self.max_budget,
            output_price: self.output_price,
            output_price_tiers: opt_items(self.output_price_tiers),
            gemini_thinking_level: text::opt(self.gemini_thinking_level),
            supports_thinking_level: self.supports_thinking_level,
        }
    }
}

impl View for ModelInfo {
    type V = Model;

    open spec fn view(&self) -> Model {
        Model {
            name: text::opt(self.name),
            max_tokens: self.max_tokens,
            context_window: self.context_window,
            supports_images: self.supports_images,
            supports_prompt_cache: self.supports_prompt_cache,
            supports_reasoning: self.supports_reasoning,
            input_price: self.input_price,
            output_price: self.output_price,
            image_output_price: self.image_output_price,
            thinking_config: match self.thinking_config {
                Some(t) => Some(t@),
                None => None,
            },
            supports_global_endpoint: self.supports_global_endpoint,
            cache_writes_price: self.cache_writes_price,
            cache_reads_price: self.cache_reads_price,
            description: text::opt(self.description),
            tiers: opt_items(self.tiers),
            temperature: self.temperature,
            top_p: self.top_p,
            top_k: self.top_k,
            supports_tools: self.supports_tools,
            api_format: text::opt(self.api_format),
        }
    }
}

impl View for OpenAiCompatibleModelInfo {
    type V = CompatModel;

    open spec fn view(&self) -> CompatModel {
        CompatModel {
            base: self.base@,
            is_r1_format_required: self.is_r1_format_required,
            system_role: text::opt(self.system_role),
            supports_reasoning_effort: self.supports_reasoning_effort,
            supports_streaming: self.supports_streaming,
        }
    }
}

/// The description of which nothing is known.
pub open spec fn blank_model() -> Model {
    Model {
        name: None,
        max_tokens: None,
        context_window: None,
        supports_images: None,
        supports_prompt_cache: false,
        supports_reasoning: None,
        input_price: None,
        output_price: None,
        image_output_price: None,
        thinking_config: None,
        supports_global_endpoint: None,
        cache_writes_price: None,
        cache_reads_price: None,
        description: None,
        tiers: None,
        temperature: None,
        top_p: None,
        top_k: None,
        supports_tools: None,
        api_format: None,
    }
}

impl Default for ModelInfo {
    fn default() -> (r: Self)
        ensures
            r@ == blank_model(),
    {
        ModelInfo {
            name: None,
            max_tokens: None,
            context_window: None,
            supports_images: None,
            supports_prompt_cache: false,
            supports_reasoning: None,
            input_price: None,
            output_price: None,
            image_output_price: None,
            thinking_config: None,
            supports_global_endpoint: None,
            cache_writes_price: None,
            cache_reads_price: None,
            description: None,
            tiers: None,
            temperature: None,
            top_p: None,
            top_k: None,
            supports_tools: None,
            api_format: None,
        }
    }
}

impl ModelInfo {
    /// A description with the same value.
    pub fn copy(&self) -> (r: ModelInfo)
        ensures
            r@ == self@,
    {
        ModelInfo {
            name: text::copy_opt(&self.name),
            max_tokens: self.max_tokens,
            context_window: self.context_window,
            supports_images: self.supports_images,
            supports_prompt_cache: self.supports_prompt_cache,
            supports_reasoning: self.supports_reasoning,
            input_price: self.input_price,
            output_price: self.output_price,
            image_output_price: self.image_output_price,
            thinking_config: match &self.thinking_config {
                Some(t) => Some(t.copy()),
                None => None,
            },
            supports_global_endpoint: self.supports_global_endpoint,
            cache_writes_price: self.cache_writes_price,
            cache_reads_price: self.cache_reads_price,
            description: text::copy_opt(&self.description),
            tiers: copy_items(&self.tiers),
            temperature: self.temperature,
            top_p: self.top_p,
            top_k: self.top_k,
            supports_tools: self.supports_tools,
            api_format: text::copy_opt(&self.api_format),
        }
    }
}

impl ThinkingConfig {
    /// A configuration with the same value.
    pub fn copy(&self) -> (r: ThinkingConfig)
        ensures
            r@ == self@,
    {
        ThinkingConfig {
            max_budget: self.max_budget,
            output_price: self.output_price,
            output_price_tiers: copy_items(&self.output_price_tiers),
            gemini_thinking_level: text::copy_opt(&self.gemini_thinking_level),
            supports_thinking_level: self.supports_thinking_level,
        }
    }
}

impl OpenAiCompatibleModelInfo {
    /// A description with the same value.
    pub fn copy(&self) -> (r: OpenAiCompatibleModelInfo)
        ensures
            r@ == self@,
    {
        OpenAiCompatibleModelInfo {
            base: self.base.copy(),
            is_r1_format_required: self.is_r1_format_required,
            system_role: text::copy_opt(&self.system_role),
            supports_reasoning_effort: self.supports_reasoning_effort,
            supports_streaming: self.supports_streaming,
        }
    }
}

/// A list with the same items.
fn copy_items<T: Copy>(v: &Option<Vec<T>>) -> (r: Option<Vec<T>>)
    ensures
        opt_items(r) == opt_items(*v),
{
    match v {
        None => None,
        Some(w) => {
            let mut out: Vec<T> = Vec::new();
            let mut i: usize = 0;
            while i < w.len()
                invariant
                    i <= w@.len(),
                    out@ =~= w@.take(i as int),
                decreases w@.len() - i,
            {
                out.push(w[i]);
                i = i + 1;
            }
            assert(w@.take(i as int) =~= w@);
            Some(out)
        },
    }
}

// ---------------------------------------------------------------------------
// Requests
// ---------------------------------------------------------------------------

/// Tool choice options for provider requests.
#[derive(Debug, Clone, PartialEq)]
pub enum ToolChoice {
    /// Model decides whether to call tools (default)
    Auto,
    /// Model MUST call at least one tool
    Required,
    /// Model cannot call tools
    NoTool,
    /// Force a specific tool by name
    Named(String),
}

/// Configuration for a provider request.
#[derive(Debug)]
pub struct ProviderRequest {
    pub system_prompt: String,
    pub messages: Vec<StorageMessage>,
    pub tools: Option<Vec<ToolDefinition>>,
    pub tool_choice: Option<ToolChoice>,
    pub use_response_api: Option<bool>,
    pub max_tokens: Option<u32>,
}

/// A tool definition for provider-native tool calling.
#[derive(Debug, PartialEq)]
pub struct ToolDefinition {
    pub tool_type: String,
    pub function: FunctionDefinition,
}

/// Function definition within a tool.
#[derive(Debug, PartialEq)]
pub struct FunctionDefinition {
    pub name: String,
    pub description: String,
    pub parameters: Json,
}

/// Usage information from a provider.
#[derive(Debug, Clone, Copy, PartialEq)]
pub struct ProviderUsage {
    pub input_tokens: u32,
    pub output_tokens: u32,
    pub cache_write_tokens: Option<u32>,
    pub cache_read_tokens: Option<u32>,
    pub reasoning_tokens: Option<u32>,
    pub total_cost: Option<u128>,
}

/// What the models of a vendor are called: the word at the front of their ids, and the
/// title under which texts speak of them.
#[derive(Debug, Clone, PartialEq)]
pub struct ModelFamily {
    pub word: String,
    pub title: String,
}

impl ModelFamily {
    /// The word of the family with something after it.
    pub fn id(&self, rest: &str) -> (r: String)
        ensures
            r@ == self.word@ + rest@,
    {
        let mut s = self.word.clone();
        text::push_text(&mut s, rest);
        s
    }

    /// Whether an id holds the word of the family with something after it.
    pub fn is_in(&self, id: &str, rest: &str) -> (r: bool)
        ensures
            r == text::has(id@, self.word@ + rest@),
    {
        let p = self.id(rest);
        text::contains(id, p.as_str())
    }
}

/// Information about the model being used.
#[derive(Debug, Clone, PartialEq)]
pub struct ProviderModel {
    pub id: String,
    pub info: ModelInfo,
}

} // verus!
