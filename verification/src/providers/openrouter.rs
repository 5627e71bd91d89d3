//! OpenRouter: a gateway to the models of many providers through a single key.

use crate::json::Json;
use crate::providers::model_table;
use crate::providers::model_table::Offer;
use crate::providers::openai;
use crate::providers::openai::{OpenAiConfig, OpenAiEndpointKind, OpenAiProvider};
use crate::providers::openai_models;
use crate::providers::types::{
    CompatModel, Model, ModelFamily, OpenAiCompatibleModelInfo, ProviderModel, ProviderRequest,
};
use crate::text;
use vstd::prelude::*;

verus! {

/// Configuration for the OpenRouter provider.
pub struct OpenRouterConfig {
    pub api_key: String,
    pub model_id: String,
    pub model_info: Option<OpenAiCompatibleModelInfo>,
    pub provider_sort: Option<String>,
    pub reasoning_effort: Option<String>,
    /// Provider name for error messages (defaults to "openrouter" if not set).
    pub provider_name: Option<String>,
}

/// OpenRouter provider (OpenAI-compatible with custom headers and base URL).
pub struct OpenRouterProvider {
    pub inner: OpenAiProvider,
}

/// The headers by which the gateway knows the caller.
pub open spec fn gateway_headers() -> Seq<(Seq<char>, Seq<char>)> {
    seq![
        ("HTTP-Referer"@, "https://sned.run"@),
        ("X-Title"@, "Sned"@),
        ("X-OpenRouter-Categories"@, "cli-agent,ide-extension"@),
    ]
}

impl OpenRouterProvider {
    /// A provider with a configuration.
    pub fn new(config: OpenRouterConfig) -> (r: OpenRouterProvider)
        ensures
            r.inner.config.api_key == config.api_key,
            text::opt(r.inner.config.base_url) == Some("https://openrouter.ai/api/v1"@),
            r.inner.config.model_id == config.model_id,
            r.inner.config.model_info == config.model_info,
            r.inner.config.reasoning_effort == config.reasoning_effort,
            r.inner.config.extra_body is None,
            openai::custom_headers(r.inner.config) == gateway_headers(),
            r.inner.config.endpoint_kind == OpenAiEndpointKind::Compatible,
            r.inner.config.stream,
            r.inner.provider_name@ == (match config.provider_name {
                Some(n) => n@,
                None => "openrouter"@,
            }),
            r.inner.provider_sort == config.provider_sort,
    {
        let mut headers: Vec<(String, String)> = Vec::new();
        headers.push(("HTTP-Referer".to_owned(), "https://sned.run".to_owned()));
        headers.push(("X-Title".to_owned(), "Sned".to_owned()));
        headers.push(
            ("X-OpenRouter-Categories".to_owned(), "cli-agent,ide-extension".to_owned()),
        );
        assert(text::pair_texts(headers@) =~= gateway_headers());
        let name = match config.provider_name {
            Some(n) => n,
            None => "openrouter".to_owned(),
        };
        let inner = OpenAiProvider::new(
            OpenAiConfig {
                api_key: config.api_key,
                base_url: Some("https://openrouter.ai/api/v1".to_owned()),
                model_id: config.model_id,
                model_info: config.model_info,
                reasoning_effort: config.reasoning_effort,
                extra_body: None,
                custom_headers: Some(headers),
                endpoint_kind: OpenAiEndpointKind::Compatible,
                stream: true,
                provider_name: Some(name),
            },
        );
        OpenRouterProvider { inner: inner.with_provider_sort(config.provider_sort) }
    }

    /// The body of a request.
    pub fn build_request_body(&self, request: &ProviderRequest) -> (r: Json)
        ensures
            r@ == openai::request_body(self.inner.config, self.inner.provider_sort, *request),
    {
        self.inner.build_request_body(request)
    }

    /// The model that the provider talks to.
    pub fn get_model(&self) -> (r: ProviderModel)
        ensures
            r.id@ == self.inner.config.model_id@,
            r.info@ == (match self.inner.config.model_info {
                Some(m) => m.base@,
                None => openai_models::openai_model(self.inner.config.model_id@).base,
            }),
    {
        self.inner.get_model()
    }

    /// The name of the provider.
    pub fn name(&self) -> (r: &'static str)
        ensures
            r@ == "openrouter"@,
    {
        "openrouter"
    }
}

// ---------------------------------------------------------------------------
// Models
// ---------------------------------------------------------------------------

/// The models of Anthropic, whose family has a word.
pub open spec fn anthropic_offer(id: Seq<char>, word: Seq<char>) -> Option<Offer> {
    if text::has(id, word + "-sonnet-4.5"@) || text::has(id, word + "-4.5-sonnet"@) {
        Some(model_table::plain(64_000, 200_000, 3_000_000, 15_000_000).with_cache(300_000, Some(3_750_000)).with_reasoning())
    } else if text::has(id, word + "-sonnet-4"@) || text::has(id, word + "-4-sonnet"@) {
        Some(model_table::plain(64_000, 200_000, 3_000_000, 15_000_000).with_cache(300_000, Some(3_750_000)).with_reasoning())
    } else if text::has(id, word + "-opus-4"@) || text::has(id, word + "-4-opus"@) {
        Some(model_table::plain(64_000, 200_000, 15_000_000, 75_000_000).with_cache(1_500_000, Some(18_750_000)).with_reasoning())
    } else if text::has(id, word + "-3.7-sonnet"@) || text::has(id, word + "-3-7-sonnet"@) {
        Some(model_table::plain(64_000, 200_000, 3_000_000, 15_000_000).with_cache(300_000, Some(3_750_000)).with_reasoning())
    } else if text::has(id, word + "-3.5-sonnet"@) || text::has(id, word + "-3-5-sonnet"@) {
        Some(model_table::plain(8192, 200_000, 3_000_000, 15_000_000).with_cache(300_000, Some(3_750_000)))
    } else if text::has(id, word + "-3.5-haiku"@) || text::has(id, word + "-3-5-haiku"@) {
        Some(model_table::plain(8192, 200_000, 1_000_000, 5_000_000).with_cache(100_000, Some(1_250_000)))
    } else if text::has(id, word + "-3-haiku"@) {
        Some(model_table::plain(4096, 200_000, 250_000, 1_250_000))
    } else if text::has(id, word + "-3-opus"@) {
        Some(model_table::plain(4096, 200_000, 15_000_000, 75_000_000))
    } else {
        None
    }
}

fn find_anthropic_offer(id: &str, family: &ModelFamily) -> (r: Option<Offer>)
    ensures
        r == anthropic_offer(id@, family.word@),
{
    if family.is_in(id, "-sonnet-4.5") || family.is_in(id, "-4.5-sonnet") {
        Some(model_table::make_plain(64_000, 200_000, 3_000_000, 15_000_000).cache(300_000, Some(3_750_000)).reasons())
    } else if family.is_in(id, "-sonnet-4") || family.is_in(id, "-4-sonnet") {
        Some(model_table::make_plain(64_000, 200_000, 3_000_000, 15_000_000).cache(300_000, Some(3_750_000)).reasons())
    } else if family.is_in(id, "-opus-4") || family.is_in(id, "-4-opus") {
        Some(model_table::make_plain(64_000, 200_000, 15_000_000, 75_000_000).cache(1_500_000, Some(18_750_000)).reasons())
    } else if family.is_in(id, "-3.7-sonnet") || family.is_in(id, "-3-7-sonnet") {
        Some(model_table::make_plain(64_000, 200_000, 3_000_000, 15_000_000).cache(300_000, Some(3_750_000)).reasons())
    } else if family.is_in(id, "-3.5-sonnet") || family.is_in(id, "-3-5-sonnet") {
        Some(model_table::make_plain(8192, 200_000, 3_000_000, 15_000_000).cache(300_000, Some(3_750_000)))
    } else if family.is_in(id, "-3.5-haiku") || family.is_in(id, "-3-5-haiku") {
        Some(model_table::make_plain(8192, 200_000, 1_000_000, 5_000_000).cache(100_000, Some(1_250_000)))
    } else if family.is_in(id, "-3-haiku") {
        Some(model_table::make_plain(4096, 200_000, 250_000, 1_250_000))
    } else if family.is_in(id, "-3-opus") {
        Some(model_table::make_plain(4096, 200_000, 15_000_000, 75_000_000))
    } else {
        None
    }
}

/// The models of OpenAI.
pub open spec fn openai_offer(id: Seq<char>) -> Option<Offer> {
    if text::has(id, "gpt-4o"@) {
        Some(model_table::plain(16_384, 128_000, 2_500_000, 10_000_000))
    } else if text::has(id, "gpt-4-turbo"@) || text::has(id, "gpt-4.5"@) {
        Some(model_table::plain(16_384, 128_000, 10_000_000, 30_000_000))
    } else if text::has(id, "gpt-3.5-turbo"@) {
        Some(model_table::plain(4096, 16_385, 500_000, 1_500_000))
    } else if text::has(id, "o1"@) || text::has(id, "o3"@) || text::has(id, "o4-mini"@) {
        Some(model_table::plain(100_000, 200_000, 5_000_000, 15_000_000).with_reasoning())
    } else {
        None
    }
}

fn find_openai_offer(id: &str) -> (r: Option<Offer>)
    ensures
        r == openai_offer(id@),
{
    if text::contains(id, "gpt-4o") {
        Some(model_table::make_plain(16_384, 128_000, 2_500_000, 10_000_000))
    } else if text::contains(id, "gpt-4-turbo") || text::contains(id, "gpt-4.5") {
        Some(model_table::make_plain(16_384, 128_000, 10_000_000, 30_000_000))
    } else if text::contains(id, "gpt-3.5-turbo") {
        Some(model_table::make_plain(4096, 16_385, 500_000, 1_500_000))
    } else if text::contains(id, "o1") || text::contains(id, "o3") || text::contains(id, "o4-mini") {
        Some(model_table::make_plain(100_000, 200_000, 5_000_000, 15_000_000).reasons())
    } else {
        None
    }
}

/// The Gemini models of Google.
pub open spec fn google_offer(id: Seq<char>) -> Option<Offer> {
    if text::has(id, "gemini-2.5-pro"@) {
        Some(model_table::plain(65_536, 2_097_152, 2_500_000, 7_500_000))
    } else if text::has(id, "gemini-2.0-flash"@) {
        Some(model_table::plain(8192, 1_048_576, 100_000, 400_000))
    } else {
        None
    }
}

fn find_google_offer(id: &str) -> (r: Option<Offer>)
    ensures
        r == google_offer(id@),
{
    if text::contains(id, "gemini-2.5-pro") {
        Some(model_table::make_plain(65_536, 2_097_152, 2_500_000, 7_500_000))
    } else if text::contains(id, "gemini-2.0-flash") {
        Some(model_table::make_plain(8192, 1_048_576, 100_000, 400_000))
    } else {
        None
    }
}

/// The Llama models of Meta.
pub open spec fn llama_offer(id: Seq<char>) -> Option<Offer> {
    if text::has(id, "llama-3.3-70b"@) {
        Some(model_table::plain(8192, 128_000, 590_000, 790_000))
    } else if text::has(id, "llama-3.1-405b"@) {
        Some(model_table::plain(8192, 128_000, 800_000, 800_000))
    } else if text::has(id, "llama-3.1-70b"@) {
        Some(model_table::plain(8192, 128_000, 590_000, 790_000))
    } else {
        None
    }
}

fn find_llama_offer(id: &str) -> (r: Option<Offer>)
    ensures
        r == llama_offer(id@),
{
    if text::contains(id, "llama-3.3-70b") {
        Some(model_table::make_plain(8192, 128_000, 590_000, 790_000))
    } else if text::contains(id, "llama-3.1-405b") {
        Some(model_table::make_plain(8192, 128_000, 800_000, 800_000))
    } else if text::contains(id, "llama-3.1-70b") {
        Some(model_table::make_plain(8192, 128_000, 590_000, 790_000))
    } else {
        None
    }
}

/// The models of DeepSeek.
pub open spec fn deepseek_offer(id: Seq<char>) -> Option<Offer> {
    if text::has(id, "deepseek-chat"@) || text::has(id, "deepseek-v3"@) {
        Some(model_table::plain(8192, 128_000, 270_000, 1_100_000))
    } else if text::has(id, "deepseek-reasoner"@) || text::has(id, "deepseek-r1"@) {
        Some(model_table::plain(8192, 128_000, 550_000, 2_190_000).with_reasoning())
    } else {
        None
    }
}

fn find_deepseek_offer(id: &str) -> (r: Option<Offer>)
    ensures
        r == deepseek_offer(id@),
{
    if text::contains(id, "deepseek-chat") || text::contains(id, "deepseek-v3") {
        Some(model_table::make_plain(8192, 128_000, 270_000, 1_100_000))
    } else if text::contains(id, "deepseek-reasoner") || text::contains(id, "deepseek-r1") {
        Some(model_table::make_plain(8192, 128_000, 550_000, 2_190_000).reasons())
    } else {
        None
    }
}

/// The models of Mistral.
pub open spec fn mistral_offer(id: Seq<char>) -> Option<Offer> {
    if text::has(id, "mistral-large"@) {
        Some(model_table::plain(8192, 128_000, 2_000_000, 6_000_000))
    } else if text::has(id, "mistral-medium"@) {
        Some(model_table::plain(8192, 32_000, 270_000, 810_000))
    } else {
        None
    }
}

fn find_mistral_offer(id: &str) -> (r: Option<Offer>)
    ensures
        r == mistral_offer(id@),
{
    if text::contains(id, "mistral-large") {
        Some(model_table::make_plain(8192, 128_000, 2_000_000, 6_000_000))
    } else if text::contains(id, "mistral-medium") {
        Some(model_table::make_plain(8192, 32_000, 270_000, 810_000))
    } else {
        None
    }
}

/// The description of a model that is not in the table.
pub open spec fn default_model(id: Seq<char>) -> Model {
    model_table::default_model(id, Some(8192), 32_768)
}

/// The description of a model of Anthropic, whose family has a word and a title.
pub open spec fn anthropic_model(id: Seq<char>, word: Seq<char>, title: Seq<char>) -> Model {
    let m = model_table::looked_up(
        Model { supports_images: Some(true), supports_prompt_cache: true, ..default_model(id) },
        anthropic_offer(id, word),
    );
    if text::has(id, word + "-sonnet-4.5"@) || text::has(id, word + "-4.5-sonnet"@) {
        Model {
            description: Some(
                title + " Sonnet 4.5 - superior intelligence across coding workflows"@,
            ),
            ..m
        }
    } else {
        m
    }
}

/// The description of a model, by the vendor before the slash.
pub open spec fn vendor_model(id: Seq<char>, word: Seq<char>, title: Seq<char>) -> Model {
    let m = default_model(id);
    let seeing = Model { supports_images: Some(true), ..m };
    if text::begins(id, "anthropic/"@) {
        anthropic_model(id, word, title)
    } else if text::begins(id, "openai/"@) {
        model_table::looked_up(seeing, openai_offer(id))
    } else if text::begins(id, "google/"@) {
        model_table::looked_up(seeing, google_offer(id))
    } else if text::begins(id, "meta-llama/"@) {
        model_table::looked_up(m, llama_offer(id))
    } else if text::begins(id, "deepseek/"@) {
        model_table::looked_up(Model { temperature: Some(300_000), ..m }, deepseek_offer(id))
    } else if text::begins(id, "mistralai/"@) {
        model_table::looked_up(m, mistral_offer(id))
    } else {
        m
    }
}

/// The description of a model behind the gateway.
pub open spec fn openrouter_model(id: Seq<char>, word: Seq<char>, title: Seq<char>) -> CompatModel {
    if model_table::is_qwen(id) {
        model_table::compatible(
            model_table::qwen_model(default_model(id)),
            Some(false),
            Some(true),
        )
    } else {
        model_table::compatible(vendor_model(id, word, title), None, Some(true))
    }
}

/// Get model info for common OpenRouter models.
/// OpenRouter supports 100+ models from multiple providers.
pub fn get_openrouter_model_info(model_id: &str, family: &ModelFamily) -> (r:
    OpenAiCompatibleModelInfo)
    ensures
        r@ == openrouter_model(model_id@, family.word@, family.title@),
{
    let mut info = model_table::make_default(model_id, Some(8192), 32_768);
    if model_table::apply_qwen_model_profile(model_id, &mut info) {
        return model_table::make_compatible(info, Some(false), Some(true));
    }
    if text::starts_with(model_id, "anthropic/") {
        info.supports_images = Some(true);
        info.supports_prompt_cache = true;
        model_table::complete(&mut info, find_anthropic_offer(model_id, family));
        if family.is_in(model_id, "-sonnet-4.5") || family.is_in(model_id, "-4.5-sonnet") {
            let mut shown = family.title.clone();
            text::push_text(
                &mut shown,
                " Sonnet 4.5 - superior intelligence across coding workflows",
            );
            info.description = Some(shown);
        }
    } else if text::starts_with(model_id, "openai/") {
        info.supports_images = Some(true);
        model_table::complete(&mut info, find_openai_offer(model_id));
    } else if text::starts_with(model_id, "google/") {
        info.supports_images = Some(true);
        model_table::complete(&mut info, find_google_offer(model_id));
    } else if text::starts_with(model_id, "meta-llama/") {
        model_table::complete(&mut info, find_llama_offer(model_id));
    } else if text::starts_with(model_id, "deepseek/") {
        info.temperature = Some(300_000);
        model_table::complete(&mut info, find_deepseek_offer(model_id));
    } else if text::starts_with(model_id, "mistralai/") {
        model_table::complete(&mut info, find_mistral_offer(model_id));
    }
    model_table::make_compatible(info, None, Some(true))
}

} // verus!
