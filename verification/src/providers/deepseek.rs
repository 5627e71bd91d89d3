//! DeepSeek: an OpenAI-compatible endpoint with the models `deepseek-chat` and
//! `deepseek-reasoner`.

use crate::json::Json;
use crate::providers::model_table;
use crate::providers::model_table::Offer;
use crate::providers::openai;
use crate::providers::openai::{OpenAiConfig, OpenAiEndpointKind, OpenAiProvider};
use crate::providers::openai_models;
use crate::providers::types::{
    CompatModel, Model, OpenAiCompatibleModelInfo, ProviderModel, ProviderRequest,
};
use crate::text;
use vstd::prelude::*;

verus! {

/// Configuration for the DeepSeek provider.
pub struct DeepSeekConfig {
    pub api_key: String,
    pub model_id: String,
    pub model_info: Option<OpenAiCompatibleModelInfo>,
}

/// DeepSeek provider (OpenAI-compatible with custom base URL).
pub struct DeepSeekProvider {
    pub inner: OpenAiProvider,
}

impl DeepSeekProvider {
    /// A provider with a configuration.
    pub fn new(config: DeepSeekConfig) -> (r: DeepSeekProvider)
        ensures
            r.inner.config.api_key == config.api_key,
            text::opt(r.inner.config.base_url) == Some("https://api.deepseek.com"@),
            r.inner.config.model_id == config.model_id,
            r.inner.config.model_info == config.model_info,
            r.inner.config.reasoning_effort is None,
            r.inner.config.extra_body is None,
            r.inner.config.custom_headers is None,
            r.inner.config.endpoint_kind == OpenAiEndpointKind::Compatible,
            r.inner.config.stream,
            r.inner.provider_name@ == "deepseek"@,
            r.inner.provider_sort is None,
    {
        let inner = OpenAiProvider::new(
            OpenAiConfig {
                api_key: config.api_key,
                base_url: Some("https://api.deepseek.com".to_owned()),
                model_id: config.model_id,
                model_info: config.model_info,
                reasoning_effort: None,
                extra_body: None,
                custom_headers: None,
                endpoint_kind: OpenAiEndpointKind::Compatible,
                stream: true,
                provider_name: Some("deepseek".to_owned()),
            },
        );
        DeepSeekProvider { inner }
    }

    /// The body of a request.
    pub fn build_request_body(&self, request: &ProviderRequest) -> (r: Json)
        ensures
            r@ == openai::request_body(self.inner.config, self.inner.provider_sort, *request),
    {
        self.inner.build_request_body(request)
    }

    /// The model that the provider talks to.
    pub fn get_model(&self) -> (r: ProviderModel)
        ensures
            r.id@ == self.inner.config.model_id@,
            r.info@ == (match self.inner.config.model_info {
                Some(m) => m.base@,
                None => openai_models::openai_model(self.inner.config.model_id@).base,
            }),
    {
        self.inner.get_model()
    }

    /// The name of the provider.
    pub fn name(&self) -> (r: &'static str)
        ensures
            r@ == "deepseek"@,
    {
        "deepseek"
    }
}

// ---------------------------------------------------------------------------
// Models
// ---------------------------------------------------------------------------

/// The entry of a model.
pub open spec fn deepseek_offer(id: Seq<char>) -> Option<Offer> {
    if id == "deepseek-chat"@ {
        Some(model_table::plain(4096, 64_000, 270_000, 1_100_000))
    } else if id == "deepseek-reasoner"@ {
        Some(model_table::plain(8192, 64_000, 550_000, 2_190_000).with_reasoning())
    } else {
        None
    }
}

fn find_deepseek_offer(id: &str) -> (r: Option<Offer>)
    ensures
        r == deepseek_offer(id@),
{
    if text::same(id, "deepseek-chat") {
        Some(model_table::make_plain(4096, 64_000, 270_000, 1_100_000))
    } else if text::same(id, "deepseek-reasoner") {
        Some(model_table::make_plain(8192, 64_000, 550_000, 2_190_000).reasons())
    } else {
        None
    }
}

/// The description of a model.
pub open spec fn deepseek_model(id: Seq<char>) -> CompatModel {
    let m = model_table::looked_up(model_table::default_model(id, Some(4096), 64_000), deepseek_offer(id));
    if id == "deepseek-reasoner"@ {
        model_table::compatible(Model { temperature: None, ..m }, None, Some(true))
    } else {
        model_table::compatible(m, None, Some(true))
    }
}

/// Get model info for known DeepSeek models.
pub fn get_deepseek_model_info(model_id: &str) -> (r: OpenAiCompatibleModelInfo)
    ensures
        r@ == deepseek_model(model_id@),
{
    let mut info = model_table::make_default(model_id, Some(4096), 64_000);
    model_table::complete(&mut info, find_deepseek_offer(model_id));
    if text::same(model_id, "deepseek-reasoner") {
        info.temperature = None;
    }
    model_table::make_compatible(info, None, Some(true))
}

} // verus!
