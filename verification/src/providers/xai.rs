//! xAI: an OpenAI-compatible endpoint with the Grok models.

use crate::json::Json;
use crate::providers::model_table;
use crate::providers::model_table::Offer;
use crate::providers::openai;
use crate::providers::openai::{OpenAiConfig, OpenAiEndpointKind, OpenAiProvider};
use crate::providers::openai_models;
use crate::providers::types::{
    CompatModel, Model, OpenAiCompatibleModelInfo, ProviderModel, ProviderRequest,
};
use crate::text;
use vstd::prelude::*;

verus! {

/// Configuration for the xAI provider.
pub struct XaiConfig {
    pub api_key: String,
    pub model_id: String,
    pub model_info: Option<OpenAiCompatibleModelInfo>,
}

/// xAI provider (OpenAI-compatible with custom base URL).
pub struct XaiProvider {
    pub inner: OpenAiProvider,
}

impl XaiProvider {
    /// A provider with a configuration.
    pub fn new(config: XaiConfig) -> (r: XaiProvider)
        ensures
            r.inner.config.api_key == config.api_key,
            text::opt(r.inner.config.base_url) == Some("https://api.x.ai/v1"@),
            r.inner.config.model_id == config.model_id,
            r.inner.config.model_info == config.model_info,
            r.inner.config.reasoning_effort is None,
            r.inner.config.extra_body is None,
            r.inner.config.custom_headers is None,
            r.inner.config.endpoint_kind == OpenAiEndpointKind::Compatible,
            r.inner.config.stream,
            r.inner.provider_name@ == "xai"@,
            r.inner.provider_sort is None,
    {
        let inner = OpenAiProvider::new(
            OpenAiConfig {
                api_key: config.api_key,
                base_url: Some("https://api.x.ai/v1".to_owned()),
                model_id: config.model_id,
                model_info: config.model_info,
                reasoning_effort: None,
                extra_body: None,
                custom_headers: None,
                endpoint_kind: OpenAiEndpointKind::Compatible,
                stream: true,
                provider_name: Some("xai".to_owned()),
            },
        );
        XaiProvider { inner }
    }

    /// The body of a request.
    pub fn build_request_body(&self, request: &ProviderRequest) -> (r: Json)
        ensures
            r@ == openai::request_body(self.inner.config, self.inner.provider_sort, *request),
    {
        self.inner.build_request_body(request)
    }

    /// The model that the provider talks to.
    pub fn get_model(&self) -> (r: ProviderModel)
        ensures
            r.id@ == self.inner.config.model_id@,
            r.info@ == (match self.inner.config.model_info {
                Some(m) => m.base@,
                None => openai_models::openai_model(self.inner.config.model_id@).base,
            }),
    {
        self.inner.get_model()
    }

    /// The name of the provider.
    pub fn name(&self) -> (r: &'static str)
        ensures
            r@ == "xai"@,
    {
        "xai"
    }
}

// ---------------------------------------------------------------------------
// Models
// ---------------------------------------------------------------------------

/// The entry of a model.
pub open spec fn xai_offer(id: Seq<char>) -> Option<Offer> {
    if id == "grok-4.3"@ || id == "grok-4.3-latest"@ {
        Some(model_table::plain(8192, 1_000_000, 1_250_000, 2_500_000).with_reasoning())
    } else if id == "grok-4.20-0309-reasoning"@ {
        Some(model_table::plain(8192, 1_000_000, 1_250_000, 2_500_000).with_reasoning())
    } else if id == "grok-4.20-0309-non-reasoning"@ {
        Some(model_table::plain(8192, 1_000_000, 1_250_000, 2_500_000))
    } else if id == "grok-4.20-multi-agent-0309"@ {
        Some(model_table::plain(8192, 1_000_000, 1_250_000, 2_500_000))
    } else if id == "grok-build-0.1"@ {
        Some(model_table::plain(8192, 256_000, 1_000_000, 2_000_000).with_reasoning())
    } else if id == "grok-3"@ || id == "grok-3-latest"@ {
        Some(model_table::plain(8192, 1_000_000, 1_250_000, 2_500_000).with_reasoning())
    } else if id == "grok-3-mini"@ || id == "grok-3-mini-latest"@ {
        Some(model_table::plain(8192, 1_000_000, 1_250_000, 2_500_000).with_reasoning())
    } else if id == "grok-2"@ || id == "grok-2-latest"@ {
        Some(model_table::plain(8192, 1_000_000, 1_250_000, 2_500_000))
    } else if id == "grok-2-mini"@ || id == "grok-2-mini-latest"@ {
        Some(model_table::plain(8192, 1_000_000, 1_250_000, 2_500_000))
    } else if id == "grok-beta"@ {
        Some(model_table::plain(8192, 1_000_000, 1_250_000, 2_500_000))
    } else {
        None
    }
}

fn find_xai_offer(id: &str) -> (r: Option<Offer>)
    ensures
        r == xai_offer(id@),
{
    if text::same(id, "grok-4.3") || text::same(id, "grok-4.3-latest") {
        Some(model_table::make_plain(8192, 1_000_000, 1_250_000, 2_500_000).reasons())
    } else if text::same(id, "grok-4.20-0309-reasoning") {
        Some(model_table::make_plain(8192, 1_000_000, 1_250_000, 2_500_000).reasons())
    } else if text::same(id, "grok-4.20-0309-non-reasoning") {
        Some(model_table::make_plain(8192, 1_000_000, 1_250_000, 2_500_000))
    } else if text::same(id, "grok-4.20-multi-agent-0309") {
        Some(model_table::make_plain(8192, 1_000_000, 1_250_000, 2_500_000))
    } else if text::same(id, "grok-build-0.1") {
        Some(model_table::make_plain(8192, 256_000, 1_000_000, 2_000_000).reasons())
    } else if text::same(id, "grok-3") || text::same(id, "grok-3-latest") {
        Some(model_table::make_plain(8192, 1_000_000, 1_250_000, 2_500_000).reasons())
    } else if text::same(id, "grok-3-mini") || text::same(id, "grok-3-mini-latest") {
        Some(model_table::make_plain(8192, 1_000_000, 1_250_000, 2_500_000).reasons())
    } else if text::same(id, "grok-2") || text::same(id, "grok-2-latest") {
        Some(model_table::make_plain(8192, 1_000_000, 1_250_000, 2_500_000))
    } else if text::same(id, "grok-2-mini") || text::same(id, "grok-2-mini-latest") {
        Some(model_table::make_plain(8192, 1_000_000, 1_250_000, 2_500_000))
    } else if text::same(id, "grok-beta") {
        Some(model_table::make_plain(8192, 1_000_000, 1_250_000, 2_500_000))
    } else {
        None
    }
}

/// The description of a model that is not in the table.
pub open spec fn unlisted(id: Seq<char>) -> Model {
    Model {
        supports_images: Some(true),
        supports_prompt_cache: true,
        input_price: Some(1_250_000),
        output_price: Some(2_500_000),
        cache_reads_price: Some(200_000),
        ..model_table::default_model(id, Some(8192), 1_000_000)
    }
}

/// The names under which `grok-4.3` can still be asked for.
pub open spec fn is_old_name(id: Seq<char>) -> bool {
    id == "grok-3"@ || id == "grok-3-latest"@ || id == "grok-3-mini"@ || id
        == "grok-3-mini-latest"@
}

/// The description of a model.
pub open spec fn xai_model(id: Seq<char>) -> CompatModel {
    let m = model_table::looked_up(unlisted(id), xai_offer(id));
    if is_old_name(id) {
        model_table::compatible(Model { name: Some("grok-4.3"@), ..m }, None, Some(true))
    } else {
        model_table::compatible(m, None, Some(true))
    }
}

/// Get model info for known xAI models.
pub fn get_xai_model_info(model_id: &str) -> (r: OpenAiCompatibleModelInfo)
    ensures
        r@ == xai_model(model_id@),
{
    let mut info = model_table::make_default(model_id, Some(8192), 1_000_000);
    info.supports_images = Some(true);
    info.supports_prompt_cache = true;
    info.input_price = Some(1_250_000);
    info.output_price = Some(2_500_000);
    info.cache_reads_price = Some(200_000);
    model_table::complete(&mut info, find_xai_offer(model_id));
    if text::same(model_id, "grok-3") || text::same(model_id, "grok-3-latest") || text::same(
        model_id,
        "grok-3-mini",
    ) || text::same(model_id, "grok-3-mini-latest") {
        info.name = Some("grok-4.3".to_owned());
    }
    model_table::make_compatible(info, None, Some(true))
}

} // verus!
