//! The models of OpenAI.

use crate::providers::model_table;
use crate::providers::model_table::Offer;
use crate::providers::types::{CompatModel, Model, OpenAiCompatibleModelInfo};
use crate::text;
use vstd::prelude::*;

verus! {

/// The entry of a model; the most specific name comes first.
pub open spec fn openai_offer(id: Seq<char>) -> Option<Offer> {
    if text::has(id, "gpt-5.6-terra"@) {
        Some(model_table::plain(128_000, 1_050_000, 2_500_000, 15_000_000).with_cache(250_000, Some(3_125_000)).with_prompt_cache().with_reasoning())
    } else if text::has(id, "gpt-5.6-luna"@) {
        Some(model_table::plain(128_000, 1_050_000, 1_000_000, 6_000_000).with_cache(100_000, Some(1_250_000)).with_prompt_cache().with_reasoning())
    } else if text::has(id, "gpt-5.6"@) {
        Some(model_table::plain(128_000, 1_050_000, 5_000_000, 30_000_000).with_cache(500_000, Some(6_250_000)).with_prompt_cache().with_reasoning())
    } else if text::has(id, "gpt-5.5"@) {
        Some(model_table::plain(128_000, 1_000_000, 5_000_000, 30_000_000).with_cache(500_000, Some(0)).with_prompt_cache().with_reasoning())
    } else if text::has(id, "gpt-5.4-pro"@) {
        Some(model_table::plain(128_000, 1_050_000, 30_000_000, 180_000_000).with_cache(0, Some(0)).with_prompt_cache().with_reasoning())
    } else if text::has(id, "gpt-5.4-mini"@) {
        Some(model_table::plain(128_000, 400_000, 750_000, 4_500_000).with_cache(75_000, Some(937_500)).with_prompt_cache().with_reasoning())
    } else if text::has(id, "gpt-5.4-nano"@) {
        Some(model_table::plain(128_000, 400_000, 200_000, 1_250_000).with_cache(20_000, Some(0)).with_prompt_cache().with_reasoning())
    } else if text::has(id, "gpt-5.4"@) {
        Some(model_table::plain(128_000, 1_050_000, 2_500_000, 15_000_000).with_cache(250_000, Some(3_125_000)).with_prompt_cache().with_reasoning())
    } else if text::has(id, "gpt-5.3-codex"@) {
        Some(model_table::plain(128_000, 400_000, 1_750_000, 14_000_000).with_cache(175_000, Some(2_187_500)).with_prompt_cache().with_reasoning())
    } else if text::has(id, "gpt-4.1-mini"@) {
        Some(model_table::plain(128_000, 1_047_576, 400_000, 1_600_000).with_cache(100_000, None).with_prompt_cache())
    } else if text::has(id, "gpt-4.1"@) {
        Some(model_table::plain(128_000, 1_047_576, 2_000_000, 8_000_000).with_cache(500_000, None).with_prompt_cache())
    } else if text::has(id, "o4-mini"@) {
        Some(model_table::plain(100_000, 200_000, 1_100_000, 4_400_000).with_cache(275_000, None).with_prompt_cache().with_reasoning())
    } else if text::has(id, "o3-mini"@) {
        Some(model_table::plain(100_000, 200_000, 1_100_000, 4_400_000).with_cache(550_000, None).with_prompt_cache().with_reasoning())
    } else if text::has(id, "o3"@) {
        Some(model_table::plain(100_000, 200_000, 2_000_000, 8_000_000).with_cache(1_000_000, None).with_prompt_cache().with_reasoning())
    } else if text::has(id, "o1-pro"@) {
        Some(model_table::plain(100_000, 200_000, 150_000_000, 600_000_000).with_cache(7_500_000, None).with_prompt_cache().with_reasoning())
    } else if text::has(id, "o1-mini"@) {
        Some(model_table::plain(65_536, 128_000, 1_500_000, 6_000_000).with_cache(750_000, None).with_prompt_cache().with_reasoning())
    } else if text::has(id, "o1"@) {
        Some(model_table::plain(100_000, 200_000, 5_000_000, 15_000_000).with_cache(2_500_000, None).with_prompt_cache().with_reasoning())
    } else if text::has(id, "gpt-4o-mini"@) {
        Some(model_table::plain(16_384, 128_000, 150_000, 600_000).with_cache(75_000, None))
    } else if text::has(id, "gpt-4o"@) {
        Some(model_table::plain(16_384, 128_000, 2_500_000, 10_000_000).with_cache(1_250_000, None))
    } else {
        None
    }
}

fn find_openai_offer(id: &str) -> (r: Option<Offer>)
    ensures
        r == openai_offer(id@),
{
    if text::contains(id, "gpt-5.6-terra") {
        Some(model_table::make_plain(128_000, 1_050_000, 2_500_000, 15_000_000).cache(250_000, Some(3_125_000)).caching().reasons())
    } else if text::contains(id, "gpt-5.6-luna") {
        Some(model_table::make_plain(128_000, 1_050_000, 1_000_000, 6_000_000).cache(100_000, Some(1_250_000)).caching().reasons())
    } else if text::contains(id, "gpt-5.6") {
        Some(model_table::make_plain(128_000, 1_050_000, 5_000_000, 30_000_000).cache(500_000, Some(6_250_000)).caching().reasons())
    } else if text::contains(id, "gpt-5.5") {
        Some(model_table::make_plain(128_000, 1_000_000, 5_000_000, 30_000_000).cache(500_000, Some(0)).caching().reasons())
    } else if text::contains(id, "gpt-5.4-pro") {
        Some(model_table::make_plain(128_000, 1_050_000, 30_000_000, 180_000_000).cache(0, Some(0)).caching().reasons())
    } else if text::contains(id, "gpt-5.4-mini") {
        Some(model_table::make_plain(128_000, 400_000, 750_000, 4_500_000).cache(75_000, Some(937_500)).caching().reasons())
    } else if text::contains(id, "gpt-5.4-nano") {
        Some(model_table::make_plain(128_000, 400_000, 200_000, 1_250_000).cache(20_000, Some(0)).caching().reasons())
    } else if text::contains(id, "gpt-5.4") {
        Some(model_table::make_plain(128_000, 1_050_000, 2_500_000, 15_000_000).cache(250_000, Some(3_125_000)).caching().reasons())
    } else if text::contains(id, "gpt-5.3-codex") {
        Some(model_table::make_plain(128_000, 400_000, 1_750_000, 14_000_000).cache(175_000, Some(2_187_500)).caching().reasons())
    } else if text::contains(id, "gpt-4.1-mini") {
        Some(model_table::make_plain(128_000, 1_047_576, 400_000, 1_600_000).cache(100_000, None).caching())
    } else if text::contains(id, "gpt-4.1") {
        Some(model_table::make_plain(128_000, 1_047_576, 2_000_000, 8_000_000).cache(500_000, None).caching())
    } else if text::contains(id, "o4-mini") {
        Some(model_table::make_plain(100_000, 200_000, 1_100_000, 4_400_000).cache(275_000, None).caching().reasons())
    } else if text::contains(id, "o3-mini") {
        Some(model_table::make_plain(100_000, 200_000, 1_100_000, 4_400_000).cache(550_000, None).caching().reasons())
    } else if text::contains(id, "o3") {
        Some(model_table::make_plain(100_000, 200_000, 2_000_000, 8_000_000).cache(1_000_000, None).caching().reasons())
    } else if text::contains(id, "o1-pro") {
        Some(model_table::make_plain(100_000, 200_000, 150_000_000, 600_000_000).cache(7_500_000, None).caching().reasons())
    } else if text::contains(id, "o1-mini") {
        Some(model_table::make_plain(65_536, 128_000, 1_500_000, 6_000_000).cache(750_000, None).caching().reasons())
    } else if text::contains(id, "o1") {
        Some(model_table::make_plain(100_000, 200_000, 5_000_000, 15_000_000).cache(2_500_000, None).caching().reasons())
    } else if text::contains(id, "gpt-4o-mini") {
        Some(model_table::make_plain(16_384, 128_000, 150_000, 600_000).cache(75_000, None))
    } else if text::contains(id, "gpt-4o") {
        Some(model_table::make_plain(16_384, 128_000, 2_500_000, 10_000_000).cache(1_250_000, None))
    } else {
        None
    }
}

/// The description of a model that is not in the table.
pub open spec fn sane_default(id: Seq<char>) -> Model {
    Model {
        supports_images: Some(true),
        supports_reasoning: Some(true),
        temperature: None,
        ..model_table::default_model(id, None, 128_000)
    }
}

/// The models whose reasoning effort can be set.
pub open spec fn takes_effort(id: Seq<char>) -> bool {
    text::has(id, "gpt-5.6"@) || text::has(id, "gpt-5.4"@) || text::has(id, "gpt-5.3-codex"@)
}

/// The description of a model.
pub open spec fn openai_model(id: Seq<char>) -> CompatModel {
    if model_table::is_qwen(id) {
        model_table::compatible(model_table::qwen_model(sane_default(id)), Some(false), None)
    } else {
        let effort = if takes_effort(id) {
            Some(true)
        } else {
            None
        };
        model_table::compatible(
            model_table::looked_up(sane_default(id), openai_offer(id)),
            effort,
            effort,
        )
    }
}

/// Get model info for known OpenAI models. Falls back to sane defaults for unknown
/// model IDs.
pub fn get_openai_model_info(model_id: &str) -> (r: OpenAiCompatibleModelInfo)
    ensures
        r@ == openai_model(model_id@),
{
    let mut info = model_table::make_default(model_id, None, 128_000);
    info.supports_images = Some(true);
    info.supports_reasoning = Some(true);
    info.temperature = None;
    if model_table::apply_qwen_model_profile(model_id, &mut info) {
        return model_table::make_compatible(info, Some(false), None);
    }
    model_table::complete(&mut info, find_openai_offer(model_id));
    let effort: Option<bool> = if text::contains(model_id, "gpt-5.6") || text::contains(
        model_id,
        "gpt-5.4",
    ) || text::contains(model_id, "gpt-5.3-codex") {
        Some(true)
    } else {
        None
    };
    model_table::make_compatible(info, effort, effort)
}

} // verus!
