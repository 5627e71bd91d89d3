//! Which provider to use, given the keys that are in the environment.

use vstd::prelude::*;

verus! {

/// Which keys and settings the environment holds.
#[derive(Debug, Clone, Copy, PartialEq, Eq, Structural)]
pub struct EnvKeys {
    pub anthropic_api_key: bool,
    pub openrouter_api_key: bool,
    pub openai_api_base: bool,
    pub openai_api_key: bool,
    pub gemini_api_key: bool,
    pub minimax_api_key: bool,
    pub minimax_cn_api_key: bool,
    pub deepseek_api_key: bool,
}

/// The provider of the first key that is there, in the order of preference.
pub open spec fn preferred(e: EnvKeys) -> Option<Seq<char>> {
    if e.anthropic_api_key {
        Some("anthropic"@)
    } else if e.openrouter_api_key {
        Some("openrouter"@)
    } else if e.openai_api_key {
        Some(
            if e.openai_api_base {
                "openai"@
            } else {
                "openai-native"@
            },
        )
    } else if e.gemini_api_key {
        Some("gemini"@)
    } else if e.minimax_api_key || e.minimax_cn_api_key {
        Some("minimax"@)
    } else if e.deepseek_api_key {
        Some("deepseek"@)
    } else {
        None
    }
}

/// The text of an optional name.
pub open spec fn opt_name(s: Option<&'static str>) -> Option<Seq<char>> {
    match s {
        Some(t) => Some(t@),
        None => None,
    }
}

/// Get the best provider based on available environment variables.
pub fn get_provider_from_env(e: &EnvKeys) -> (r: Option<&'static str>)
    ensures
        opt_name(r) == preferred(*e),
{
    if e.anthropic_api_key {
        return Some("anthropic");
    }
    if e.openrouter_api_key {
        return Some("openrouter");
    }
    if e.openai_api_base && e.openai_api_key {
        return Some("openai");
    }
    if e.openai_api_key {
        return Some("openai-native");
    }
    if e.gemini_api_key {
        return Some("gemini");
    }
    if e.minimax_api_key || e.minimax_cn_api_key {
        return Some("minimax");
    }
    if e.deepseek_api_key {
        return Some("deepseek");
    }
    None
}

/// A provider is found exactly where some provider's key is there.
pub proof fn law_found_exactly_with_a_key(e: EnvKeys)
    ensures
        preferred(e) is Some <==> e.anthropic_api_key || e.openrouter_api_key || e.openai_api_key
            || e.gemini_api_key || e.minimax_api_key || e.minimax_cn_api_key
            || e.deepseek_api_key,
{
}

} // verus!
