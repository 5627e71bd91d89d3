//! Groq: an OpenAI-compatible endpoint with very fast Llama models.

use crate::json::Json;
use crate::providers::model_table;
use crate::providers::model_table::Offer;
use crate::providers::openai;
use crate::providers::openai::{OpenAiConfig, OpenAiEndpointKind, OpenAiProvider};
use crate::providers::openai_models;
use crate::providers::types::{
    CompatModel, OpenAiCompatibleModelInfo, ProviderModel, ProviderRequest,
};
use crate::text;
use vstd::prelude::*;

verus! {

/// Configuration for the Groq provider.
pub struct GroqConfig {
    pub api_key: String,
    pub model_id: String,
    pub model_info: Option<OpenAiCompatibleModelInfo>,
}

/// Groq provider (OpenAI-compatible with custom base URL).
pub struct GroqProvider {
    pub inner: OpenAiProvider,
}

impl GroqProvider {
    /// A provider with a configuration.
    pub fn new(config: GroqConfig) -> (r: GroqProvider)
        ensures
            r.inner.config.api_key == config.api_key,
            text::opt(r.inner.config.base_url) == Some("https://api.groq.com/openai/v1"@),
            r.inner.config.model_id == config.model_id,
            r.inner.config.model_info == config.model_info,
            r.inner.config.reasoning_effort is None,
            r.inner.config.extra_body is None,
            r.inner.config.custom_headers is None,
            r.inner.config.endpoint_kind == OpenAiEndpointKind::Compatible,
            r.inner.config.stream,
            r.inner.provider_name@ == "groq"@,
            r.inner.provider_sort is None,
    {
        let inner = OpenAiProvider::new(
            OpenAiConfig {
                api_key: config.api_key,
                base_url: Some("https://api.groq.com/openai/v1".to_owned()),
                model_id: config.model_id,
                model_info: config.model_info,
                reasoning_effort: None,
                extra_body: None,
                custom_headers: None,
                endpoint_kind: OpenAiEndpointKind::Compatible,
                stream: true,
                provider_name: Some("groq".to_owned()),
            },
        );
        GroqProvider { inner }
    }

    /// The body of a request.
    pub fn build_request_body(&self, request: &ProviderRequest) -> (r: Json)
        ensures
            r@ == openai::request_body(self.inner.config, self.inner.provider_sort, *request),
    {
        self.inner.build_request_body(request)
    }

    /// The model that the provider talks to.
    pub fn get_model(&self) -> (r: ProviderModel)
        ensures
            r.id@ == self.inner.config.model_id@,
            r.info@ == (match self.inner.config.model_info {
                Some(m) => m.base@,
                None => openai_models::openai_model(self.inner.config.model_id@).base,
            }),
    {
        self.inner.get_model()
    }

    /// The name of the provider.
    pub fn name(&self) -> (r: &'static str)
        ensures
            r@ == "groq"@,
    {
        "groq"
    }
}

// ---------------------------------------------------------------------------
// Models
// ---------------------------------------------------------------------------

/// The entry of a model.
pub open spec fn groq_offer(id: Seq<char>) -> Option<Offer> {
    if id == "llama-3.3-70b-versatile"@ {
        Some(model_table::plain(8192, 128_000, 590_000, 790_000))
    } else if id == "llama-3.1-8b-instant"@ {
        Some(model_table::plain(8192, 128_000, 50_000, 80_000))
    } else {
        None
    }
}

fn find_groq_offer(id: &str) -> (r: Option<Offer>)
    ensures
        r == groq_offer(id@),
{
    if text::same(id, "llama-3.3-70b-versatile") {
        Some(model_table::make_plain(8192, 128_000, 590_000, 790_000))
    } else if text::same(id, "llama-3.1-8b-instant") {
        Some(model_table::make_plain(8192, 128_000, 50_000, 80_000))
    } else {
        None
    }
}

/// The description of a model.
pub open spec fn groq_model(id: Seq<char>) -> CompatModel {
    let m = model_table::looked_up(model_table::default_model(id, Some(8192), 32_768), groq_offer(id));
    model_table::compatible(m, None, Some(true))
}

/// Get model info for known Groq models.
pub fn get_groq_model_info(model_id: &str) -> (r: OpenAiCompatibleModelInfo)
    ensures
        r@ == groq_model(model_id@),
{
    let mut info = model_table::make_default(model_id, Some(8192), 32_768);
    model_table::complete(&mut info, find_groq_offer(model_id));
    model_table::make_compatible(info, None, Some(true))
}

} // verus!
