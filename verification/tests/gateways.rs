//! The smaller providers, their models, and the choice of a provider.

use sned::json::Json;
use sned::providers::deepseek::{get_deepseek_model_info, DeepSeekConfig, DeepSeekProvider};
use sned::providers::env_auth::{get_provider_from_env, EnvKeys};
use sned::providers::groq::{get_groq_model_info, GroqConfig, GroqProvider};
use sned::providers::openrouter::{
    get_openrouter_model_info, OpenRouterConfig, OpenRouterProvider,
};
use sned::providers::xai::{get_xai_model_info, XaiConfig, XaiProvider};
use sned::providers::{ModelFamily, ProviderRequest};

/// A value of the library as serde reads it.
fn v(j: &Json) -> serde_json::Value {
    serde_json::from_str(&sned::json::to_text(j)).unwrap()
}

fn family() -> ModelFamily {
    ModelFamily { word: "acme".to_string(), title: "Acme".to_string() }
}

fn test_request() -> ProviderRequest {
    ProviderRequest {
        system_prompt: "You are helpful.".to_string(),
        messages: Vec::new(),
        tools: None,
        tool_choice: None,
        use_response_api: None,
        max_tokens: None,
    }
}

#[test]
fn test_deepseek_config() {
    let config = DeepSeekConfig {
        api_key: "test-key".to_string(),
        model_id: "deepseek-chat".to_string(),
        model_info: None,
    };
    let provider = DeepSeekProvider::new(config);
    assert_eq!(provider.name(), "deepseek");
}

#[test]
fn test_deepseek_model_info_deepseek_chat() {
    let info = get_deepseek_model_info("deepseek-chat");
    assert_eq!(info.base.max_tokens, Some(4096));
    assert_eq!(info.base.context_window, Some(64_000));
    assert_eq!(info.base.supports_images, Some(false));
    assert_eq!(info.base.supports_reasoning, Some(false));
    assert_eq!(info.base.input_price, Some(270000));
    assert_eq!(info.base.output_price, Some(1100000));
    assert_eq!(info.base.temperature, Some(700000));
}

#[test]
fn test_deepseek_model_info_deepseek_reasoner() {
    let info = get_deepseek_model_info("deepseek-reasoner");
    assert_eq!(info.base.max_tokens, Some(8192));
    assert_eq!(info.base.context_window, Some(64_000));
    assert_eq!(info.base.supports_images, Some(false));
    assert_eq!(info.base.supports_reasoning, Some(true));
    assert_eq!(info.base.input_price, Some(550000));
    assert_eq!(info.base.output_price, Some(2190000));
    assert_eq!(info.base.temperature, None);
}

#[test]
fn test_deepseek_model_info_unknown() {
    let info = get_deepseek_model_info("unknown-model");
    assert_eq!(info.base.max_tokens, Some(4096));
    assert_eq!(info.base.context_window, Some(64_000));
    assert_eq!(info.base.supports_images, Some(false));
}

#[test]
fn test_deepseek_provider_name() {
    let config = DeepSeekConfig {
        api_key: "test-key".to_string(),
        model_id: "deepseek-chat".to_string(),
        model_info: None,
    };
    let provider = DeepSeekProvider::new(config);
    assert_eq!(provider.name(), "deepseek");
}

#[test]
fn test_deepseek_base_url() {
    // Verify DeepSeek base_url is exactly https://api.deepseek.com (no /v1 suffix)
    // This is correct per official DeepSeek API docs:
    // https://api.deepseek.com/chat/completions
    let config = DeepSeekConfig {
        api_key: "test-key".to_string(),
        model_id: "deepseek-chat".to_string(),
        model_info: None,
    };
    let provider = DeepSeekProvider::new(config);
    // Access inner provider's base_url for verification
    assert_eq!(provider.inner.base_url(), "https://api.deepseek.com");
}

#[test]
fn test_groq_config() {
    let config = GroqConfig {
        api_key: "test-key".to_string(),
        model_id: "llama-3.3-70b-versatile".to_string(),
        model_info: None,
    };
    let provider = GroqProvider::new(config);
    assert_eq!(provider.name(), "groq");
}

#[test]
fn test_groq_model_info_llama_3_3() {
    let info = get_groq_model_info("llama-3.3-70b-versatile");
    assert_eq!(info.base.max_tokens, Some(8192));
    assert_eq!(info.base.context_window, Some(128_000));
    assert_eq!(info.base.supports_images, Some(false));
    assert_eq!(info.base.supports_reasoning, Some(false));
    assert_eq!(info.base.input_price, Some(590000));
    assert_eq!(info.base.output_price, Some(790000));
    assert_eq!(info.base.temperature, Some(700000));
}

#[test]
fn test_groq_model_info_llama_3_1_8b() {
    let info = get_groq_model_info("llama-3.1-8b-instant");
    assert_eq!(info.base.max_tokens, Some(8192));
    assert_eq!(info.base.context_window, Some(128_000));
    assert_eq!(info.base.supports_images, Some(false));
    assert_eq!(info.base.input_price, Some(50000));
    assert_eq!(info.base.output_price, Some(80000));
}

#[test]
fn test_groq_model_info_unknown() {
    let info = get_groq_model_info("unknown-model");
    assert_eq!(info.base.max_tokens, Some(8192));
    assert_eq!(info.base.context_window, Some(32_768));
    assert_eq!(info.base.supports_images, Some(false));
}

#[test]
fn test_xai_config() {
    let config = XaiConfig {
        api_key: "test-key".to_string(),
        model_id: "grok-3".to_string(),
        model_info: None,
    };
    let provider = XaiProvider::new(config);
    assert_eq!(provider.name(), "xai");
}

#[test]
fn test_xai_model_info_grok_3() {
    // grok-3 is aliased to grok-4.3 per xAI docs (grok-4.3 supports reasoning)
    let info = get_xai_model_info("grok-3");
    assert_eq!(info.base.max_tokens, Some(8192));
    assert_eq!(info.base.context_window, Some(1_000_000));
    assert_eq!(info.base.supports_images, Some(true));
    assert_eq!(info.base.supports_reasoning, Some(true));
    assert_eq!(info.base.input_price, Some(1250000));
    assert_eq!(info.base.output_price, Some(2500000));
    assert_eq!(info.base.temperature, Some(700000));
    assert_eq!(info.base.cache_reads_price, Some(200000));
}

#[test]
fn test_xai_model_info_grok_3_mini() {
    // grok-3-mini is aliased to grok-4.3 per xAI docs
    let info = get_xai_model_info("grok-3-mini");
    assert_eq!(info.base.max_tokens, Some(8192));
    assert_eq!(info.base.context_window, Some(1_000_000));
    assert_eq!(info.base.supports_images, Some(true));
    assert_eq!(info.base.input_price, Some(1250000));
    assert_eq!(info.base.output_price, Some(2500000));
}

#[test]
fn test_xai_model_info_grok_2() {
    // grok-2 uses grok-4.3 pricing per xAI docs
    let info = get_xai_model_info("grok-2");
    assert_eq!(info.base.max_tokens, Some(8192));
    assert_eq!(info.base.context_window, Some(1_000_000));
    assert_eq!(info.base.supports_images, Some(true));
    assert_eq!(info.base.input_price, Some(1250000));
    assert_eq!(info.base.output_price, Some(2500000));
}

#[test]
fn test_xai_model_info_unknown() {
    // Default values based on xAI grok-4.3
    let info = get_xai_model_info("unknown-model");
    assert_eq!(info.base.max_tokens, Some(8192));
    assert_eq!(info.base.context_window, Some(1_000_000));
    assert_eq!(info.base.supports_images, Some(true));
}

#[test]
fn test_openrouter_config() {
    let config = OpenRouterConfig {
        api_key: "test-key".to_string(),
        model_id: "anthropic/acme-sonnet-4.5".to_string(),
        model_info: None,
        provider_sort: None,
        reasoning_effort: None,
        provider_name: None,
    };
    let provider = OpenRouterProvider::new(config);
    assert_eq!(provider.name(), "openrouter");
}

#[test]
fn test_openrouter_request_body_applies_sort_and_reasoning_effort() {
    for reasoning_effort in ["high", "none"] {
        let provider = OpenRouterProvider::new(OpenRouterConfig {
            api_key: "test-key".to_string(),
            model_id: "openai/gpt-5.4".to_string(),
            model_info: None,
            provider_sort: Some("throughput".to_string()),
            reasoning_effort: Some(reasoning_effort.to_string()),
            provider_name: None,
        });

        let body = v(&provider.build_request_body(&test_request()));

        assert_eq!(body["provider"]["sort"], "throughput");
        assert_eq!(body["reasoning_effort"], reasoning_effort);
    }
}

#[test]
fn test_openrouter_provider_name() {
    let config = OpenRouterConfig {
        api_key: "test-key".to_string(),
        model_id: "anthropic/acme-sonnet-4.5".to_string(),
        model_info: None,
        provider_sort: None,
        reasoning_effort: None,
        provider_name: None,
    };
    let provider = OpenRouterProvider::new(config);
    assert_eq!(provider.name(), "openrouter");
}

#[test]
fn test_openrouter_name_ignores_custom_provider_name() {
    let config = OpenRouterConfig {
        api_key: "test-key".to_string(),
        model_id: "anthropic/acme-sonnet-4.5".to_string(),
        model_info: None,
        provider_sort: None,
        reasoning_effort: None,
        provider_name: Some("custom-openrouter".to_string()),
    };
    let provider = OpenRouterProvider::new(config);
    assert_eq!(provider.name(), "openrouter");
}

#[test]
fn test_openrouter_model_info_claude_sonnet_4_5() {
    let info = get_openrouter_model_info("anthropic/acme-sonnet-4.5", &family());
    assert_eq!(info.base.max_tokens, Some(64_000));
    assert_eq!(info.base.context_window, Some(200_000));
    assert_eq!(info.base.supports_images, Some(true));
    assert!(info.base.supports_prompt_cache);
    assert_eq!(info.base.input_price, Some(3000000));
    assert_eq!(info.base.output_price, Some(15000000));
    assert_eq!(info.base.cache_writes_price, Some(3750000));
    assert_eq!(info.base.cache_reads_price, Some(300000));
}

#[test]
fn test_openrouter_model_info_gpt_4o() {
    let info = get_openrouter_model_info("openai/gpt-4o", &family());
    assert_eq!(info.base.max_tokens, Some(16_384));
    assert_eq!(info.base.context_window, Some(128_000));
    assert_eq!(info.base.supports_images, Some(true));
    assert_eq!(info.base.input_price, Some(2500000));
    assert_eq!(info.base.output_price, Some(10000000));
}

#[test]
fn test_openrouter_model_info_gemini() {
    let info = get_openrouter_model_info("google/gemini-2.5-pro", &family());
    assert_eq!(info.base.max_tokens, Some(65_536));
    assert_eq!(info.base.context_window, Some(2_097_152));
    assert_eq!(info.base.supports_images, Some(true));
    assert_eq!(info.base.input_price, Some(2500000));
    assert_eq!(info.base.output_price, Some(7500000));
}

#[test]
fn test_openrouter_model_info_llama() {
    let info = get_openrouter_model_info("meta-llama/llama-3.3-70b", &family());
    assert_eq!(info.base.max_tokens, Some(8192));
    assert_eq!(info.base.context_window, Some(128_000));
    assert_eq!(info.base.supports_images, Some(false));
    assert_eq!(info.base.input_price, Some(590000));
    assert_eq!(info.base.output_price, Some(790000));
}

#[test]
fn test_openrouter_model_info_deepseek() {
    let info = get_openrouter_model_info("deepseek/deepseek-reasoner", &family());
    assert_eq!(info.base.max_tokens, Some(8192));
    assert_eq!(info.base.context_window, Some(128_000));
    assert_eq!(info.base.supports_images, Some(false));
    assert_eq!(info.base.supports_reasoning, Some(true));
    assert_eq!(info.base.input_price, Some(550000));
    assert_eq!(info.base.output_price, Some(2190000));
}

#[test]
fn test_openrouter_model_info_qwen_family() {
    for model_id in [
        "qwen3.6-35b-a3b",
        "qwen/qwen3.6-35b-a3b",
        "qwen/qwen3.5-27b",
    ] {
        let info = get_openrouter_model_info(model_id, &family());
        assert_eq!(info.base.context_window, Some(262_144));
        assert_eq!(info.base.max_tokens, Some(65_536));
        assert_eq!(info.base.supports_tools, Some(true));
        assert_eq!(info.base.supports_images, Some(false));
        assert!(!info.base.supports_prompt_cache);
        assert_eq!(info.base.supports_reasoning, Some(true));
        assert_eq!(info.supports_reasoning_effort, Some(false));
    }
}

#[test]
fn test_openrouter_model_info_unknown() {
    let info = get_openrouter_model_info("unknown/model", &family());
    assert_eq!(info.base.max_tokens, Some(8192));
    assert_eq!(info.base.context_window, Some(32_768));
    assert_eq!(info.base.supports_images, Some(false));
}

fn no_keys() -> EnvKeys {
    EnvKeys {
        anthropic_api_key: false,
        openrouter_api_key: false,
        openai_api_base: false,
        openai_api_key: false,
        gemini_api_key: false,
        minimax_api_key: false,
        minimax_cn_api_key: false,
        deepseek_api_key: false,
    }
}

#[test]
fn test_provider_detection() {
    // ANTHROPIC_API_KEY has highest priority
    let keys = EnvKeys { anthropic_api_key: true, openai_api_key: true, ..no_keys() };
    assert_eq!(get_provider_from_env(&keys), Some("anthropic"));

    // OPENAI_API_KEY alone
    let keys = EnvKeys { openai_api_key: true, ..no_keys() };
    assert_eq!(get_provider_from_env(&keys), Some("openai-native"));

    // No provider
    assert_eq!(get_provider_from_env(&no_keys()), None);

    // All providers in priority order
    let test_cases = vec![
        (EnvKeys { anthropic_api_key: true, ..no_keys() }, "anthropic"),
        (EnvKeys { openrouter_api_key: true, ..no_keys() }, "openrouter"),
        (EnvKeys { openai_api_key: true, ..no_keys() }, "openai-native"),
        (EnvKeys { gemini_api_key: true, ..no_keys() }, "gemini"),
        (EnvKeys { minimax_api_key: true, ..no_keys() }, "minimax"),
        (EnvKeys { deepseek_api_key: true, ..no_keys() }, "deepseek"),
    ];
    for (keys, expected_provider) in test_cases {
        assert_eq!(get_provider_from_env(&keys), Some(expected_provider));
    }

    // MINIMAX_CN_API_KEY maps to minimax
    let keys = EnvKeys { minimax_cn_api_key: true, ..no_keys() };
    assert_eq!(get_provider_from_env(&keys), Some("minimax"));

    // OPENAI_API_BASE alone is no provider without OPENAI_API_KEY
    let keys = EnvKeys { openai_api_base: true, ..no_keys() };
    assert_eq!(get_provider_from_env(&keys), None);

    // OPENAI_API_BASE + OPENAI_API_KEY together
    let keys = EnvKeys { openai_api_base: true, openai_api_key: true, ..no_keys() };
    assert_eq!(get_provider_from_env(&keys), Some("openai"));
}
