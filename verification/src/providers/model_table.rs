//! What model tables say of a model, and how that completes a default description.

use crate::providers::types;
use crate::providers::types::{CompatModel, Model, ModelInfo, OpenAiCompatibleModelInfo};
use crate::text;
use vstd::prelude::*;

verus! {

/// An entry of a model table: limits, prices, and what the model adds to the default.
#[derive(Debug, Clone, Copy, PartialEq)]
pub struct Offer {
    pub max_tokens: u32,
    pub context_window: u64,
    pub input_price: u64,
    pub output_price: u64,
    pub cache_reads: Option<u64>,
    pub cache_writes: Option<u64>,
    pub prompt_cache: bool,
    pub reasoning: bool,
}

/// A description completed by an entry of a table. What the entry leaves open stays.
pub open spec fn offered(m: Model, o: Offer) -> Model {
    Model {
        max_tokens: Some(o.max_tokens),
        context_window: Some(o.context_window),
        input_price: Some(o.input_price),
        output_price: Some(o.output_price),
        cache_reads_price: if o.cache_reads is Some {
            o.cache_reads
        } else {
            m.cache_reads_price
        },
        cache_writes_price: if o.cache_writes is Some {
            o.cache_writes
        } else {
            m.cache_writes_price
        },
        supports_prompt_cache: m.supports_prompt_cache || o.prompt_cache,
        supports_reasoning: if o.reasoning {
            Some(true)
        } else {
            m.supports_reasoning
        },
        ..m
    }
}

/// A description completed by an entry, where the table has one.
pub open spec fn looked_up(m: Model, o: Option<Offer>) -> Model {
    match o {
        Some(x) => offered(m, x),
        None => m,
    }
}

/// Completes a description by an entry, where the table has one.
pub fn complete(info: &mut ModelInfo, offer: Option<Offer>)
    ensures
        final(info)@ == looked_up(old(info)@, offer),
{
    if let Some(o) = offer {
        info.max_tokens = Some(o.max_tokens);
        info.context_window = Some(o.context_window);
        info.input_price = Some(o.input_price);
        info.output_price = Some(o.output_price);
        if o.cache_reads.is_some() {
            info.cache_reads_price = o.cache_reads;
        }
        if o.cache_writes.is_some() {
            info.cache_writes_price = o.cache_writes;
        }
        if o.prompt_cache {
            info.supports_prompt_cache = true;
        }
        if o.reasoning {
            info.supports_reasoning = Some(true);
        }
    }
}

/// An entry with limits and prices only.
pub open spec fn plain(max_tokens: u32, context_window: u64, input: u64, output: u64) -> Offer {
    Offer {
        max_tokens,
        context_window,
        input_price: input,
        output_price: output,
        cache_reads: None,
        cache_writes: None,
        prompt_cache: false,
        reasoning: false,
    }
}

/// An entry with limits and prices only.
pub fn make_plain(max_tokens: u32, context_window: u64, input: u64, output: u64) -> (r: Offer)
    ensures
        r == plain(max_tokens, context_window, input, output),
{
    Offer {
        max_tokens,
        context_window,
        input_price: input,
        output_price: output,
        cache_reads: None,
        cache_writes: None,
        prompt_cache: false,
        reasoning: false,
    }
}

impl Offer {
    /// The entry with cache prices.
    pub open spec fn with_cache(self, reads: u64, writes: Option<u64>) -> Offer {
        Offer { cache_reads: Some(reads), cache_writes: writes, ..self }
    }

    /// The entry of a model that caches prompts.
    pub open spec fn with_prompt_cache(self) -> Offer {
        Offer { prompt_cache: true, ..self }
    }

    /// The entry of a model that reasons.
    pub open spec fn with_reasoning(self) -> Offer {
        Offer { reasoning: true, ..self }
    }

    /// The entry with cache prices.
    pub fn cache(self, reads: u64, writes: Option<u64>) -> (r: Offer)
        ensures
            r == self.with_cache(reads, writes),
    {
        let mut o = self;
        o.cache_reads = Some(reads);
        o.cache_writes = writes;
        o
    }

    /// The entry of a model that caches prompts.
    pub fn caching(self) -> (r: Offer)
        ensures
            r == self.with_prompt_cache(),
    {
        let mut o = self;
        o.prompt_cache = true;
        o
    }

    /// The entry of a model that reasons.
    pub fn reasons(self) -> (r: Offer)
        ensures
            r == self.with_reasoning(),
    {
        let mut o = self;
        o.reasoning = true;
        o
    }
}

/// The default description of a model that costs nothing, of which only its name and
/// its limits are known.
pub open spec fn default_model(name: Seq<char>, max_tokens: Option<u32>, window: u64) -> Model {
    Model {
        name: Some(name),
        max_tokens,
        context_window: Some(window),
        supports_images: Some(false),
        supports_reasoning: Some(false),
        input_price: Some(0),
        output_price: Some(0),
        temperature: Some(700_000),
        supports_tools: Some(true),
        ..types::blank_model()
    }
}

/// The default description of a model.
pub fn make_default(name: &str, max_tokens: Option<u32>, window: u64) -> (r: ModelInfo)
    ensures
        r@ == default_model(name@, max_tokens, window),
{
    let mut m = ModelInfo::default();
    m.name = Some(name.to_owned());
    m.max_tokens = max_tokens;
    m.context_window = Some(window);
    m.supports_images = Some(false);
    m.supports_reasoning = Some(false);
    m.input_price = Some(0);
    m.output_price = Some(0);
    m.temperature = Some(700_000);
    m.supports_tools = Some(true);
    m
}

/// The description of a model for an OpenAI-compatible endpoint.
pub open spec fn compatible(
    base: Model,
    reasoning_effort: Option<bool>,
    streaming: Option<bool>,
) -> CompatModel {
    CompatModel {
        base,
        is_r1_format_required: None,
        system_role: None,
        supports_reasoning_effort: reasoning_effort,
        supports_streaming: streaming,
    }
}

/// The description of a model for an OpenAI-compatible endpoint.
pub fn make_compatible(
    base: ModelInfo,
    reasoning_effort: Option<bool>,
    streaming: Option<bool>,
) -> (r: OpenAiCompatibleModelInfo)
    ensures
        r@ == compatible(base@, reasoning_effort, streaming),
{
    OpenAiCompatibleModelInfo {
        base,
        is_r1_format_required: None,
        system_role: None,
        supports_reasoning_effort: reasoning_effort,
        supports_streaming: streaming,
    }
}

// ---------------------------------------------------------------------------
// Qwen
// ---------------------------------------------------------------------------

/// The id names a Qwen model of the 3.5 or 3.6 generation, with or without the vendor
/// before it.
pub open spec fn is_qwen(id: Seq<char>) -> bool {
    text::begins(id, "qwen3.5"@) || text::begins(id, "qwen3.6"@) || text::begins(
        id,
        "qwen/qwen3.5"@,
    ) || text::begins(id, "qwen/qwen3.6"@)
}

/// The description of a Qwen model.
pub open spec fn qwen_model(m: Model) -> Model {
    Model {
        max_tokens: Some(65_536),
        context_window: Some(262_144),
        supports_images: Some(false),
        supports_prompt_cache: false,
        supports_reasoning: Some(true),
        supports_tools: Some(true),
        ..m
    }
}

/// Completes the description of a Qwen model, and says whether the id names one.
pub fn apply_qwen_model_profile(model_id: &str, info: &mut ModelInfo) -> (r: bool)
    ensures
        r == is_qwen(model_id@),
        final(info)@ == (if is_qwen(model_id@) {
            qwen_model(old(info)@)
        } else {
            old(info)@
        }),
{
    if text::starts_with(model_id, "qwen3.5") || text::starts_with(model_id, "qwen3.6")
        || text::starts_with(model_id, "qwen/qwen3.5") || text::starts_with(
        model_id,
        "qwen/qwen3.6",
    ) {
        info.max_tokens = Some(65_536);
        info.context_window = Some(262_144);
        info.supports_images = Some(false);
        info.supports_prompt_cache = false;
        info.supports_reasoning = Some(true);
        info.supports_tools = Some(true);
        true
    } else {
        false
    }
}

} // verus!
