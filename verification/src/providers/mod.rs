//! Language-model providers: what they are asked, and how their answers are read.

pub mod anthropic;
pub mod anthropic_laws;
pub mod anthropic_stream;
pub mod body_laws;
pub mod calls;
pub mod chat_format;
pub mod completion_laws;
pub mod conversation_laws;
pub mod deepseek;
pub mod env_auth;
pub mod error_laws;
pub mod errors;
pub mod gemini;
pub mod gemini_answer_laws;
pub mod gemini_format;
pub mod gemini_laws;
pub mod gemini_stream;
pub mod groq;
pub mod line_laws;
pub mod minimax;
pub mod minimax_call_laws;
pub mod minimax_laws;
pub mod minimax_stream;
pub mod minimax_thoughts;
pub mod mock;
pub mod model_table;
pub mod openai;
pub mod openai_completion;
pub mod openai_laws;
pub mod openai_models;
pub mod openai_stream;
pub mod openrouter;
pub mod reading_laws;
pub mod reasoning;
pub mod request_laws;
pub mod session_laws;
pub mod sessions;
pub mod setting_laws;
pub mod sse;
pub mod stream_events;
pub mod tool_args;
pub mod tool_args_laws;
pub mod types;
pub mod value_laws;
pub mod xai;

pub use errors::{Header, ProviderError, ProviderHttpError};
pub use sse::SseLineBuffer;
pub use tool_args::validate_tool_call_args;
pub use types::{
    ApiStreamChunk, ApiStreamReasoningChunk, ApiStreamTextChunk, ApiStreamToolCall,
    ApiStreamToolCallFunction, ApiStreamToolCallsChunk, ApiStreamUsageChunk, AssistantContentBlock,
    DocumentContentBlock, DocumentSource, FunctionDefinition, ImageContentBlock, ImageSource,
    MessageContent, MessageMetrics, MessageModelInfo, MessageRole, ModelFamily, ModelInfo, ModelTier,
    OpenAiCompatibleModelInfo, PriceTier, ProviderModel, ProviderRequest, ProviderUsage,
    ReasoningDetailParam, RedactedThinkingBlock, SharedContentFields, StorageMessage,
    TextContentBlock, ThinkingBlock, ThinkingConfig, ToolChoice, ToolDefinition, ToolResultBlock,
    ToolResultContent, ToolResultContentBlock, ToolUseBlock, UserContentBlock,
    MAX_TOOL_ARGUMENT_SIZE,
};
