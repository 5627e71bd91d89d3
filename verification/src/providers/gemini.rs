//! Gemini: requests to its native endpoint, and its models.

use crate::json;
use crate::json::{Json, Tree};
use crate::providers::chat_format;
use crate::providers::gemini_format;
use crate::providers::minimax;
use crate::providers::types;
use crate::providers::types::{
    Model, ModelInfo, ModelTier, ProviderModel, ProviderRequest, Thinking, ThinkingConfig,
    ToolChoice, ToolDefinition,
};
use crate::text;
use vstd::prelude::*;

verus! {

/// Configuration for the Gemini provider.
#[derive(Debug, Clone)]
pub struct GeminiConfig {
    pub api_key: String,
    pub base_url: Option<String>,
    pub model_id: String,
    pub model_info: Option<ModelInfo>,
    pub thinking_budget_tokens: Option<u32>,
    pub reasoning_effort: Option<String>,
    pub search_enabled: bool,
}

/// Gemini API thinking level enum.
#[derive(Debug, Clone, Copy, PartialEq, Eq, Structural)]
pub enum GeminiThinkingLevel {
    Minimal,
    Low,
    Medium,
    High,
}

/// The name of a thinking level.
pub open spec fn level_name(l: GeminiThinkingLevel) -> Seq<char> {
    match l {
        GeminiThinkingLevel::Minimal => "minimal"@,
        GeminiThinkingLevel::Low => "low"@,
        GeminiThinkingLevel::Medium => "medium"@,
        GeminiThinkingLevel::High => "high"@,
    }
}

impl GeminiThinkingLevel {
    /// The name of the level.
    pub fn as_str(&self) -> (r: &'static str)
        ensures
            r@ == level_name(*self),
    {
        match self {
            GeminiThinkingLevel::Minimal => "minimal",
            GeminiThinkingLevel::Low => "low",
            GeminiThinkingLevel::Medium => "medium",
            GeminiThinkingLevel::High => "high",
        }
    }
}

/// The thinking level that a lower-case effort asks for. Any other word counts as low.
pub open spec fn level_for(effort: Seq<char>) -> GeminiThinkingLevel {
    if effort == "minimal"@ {
        GeminiThinkingLevel::Minimal
    } else if effort == "medium"@ {
        GeminiThinkingLevel::Medium
    } else if effort == "high"@ || effort == "xhigh"@ {
        GeminiThinkingLevel::High
    } else {
        GeminiThinkingLevel::Low
    }
}

/// The thinking level that a lower-case effort asks for.
pub fn thinking_level_of(effort: &str) -> (r: GeminiThinkingLevel)
    ensures
        r == level_for(effort@),
{
    if text::same(effort, "minimal") {
        GeminiThinkingLevel::Minimal
    } else if text::same(effort, "medium") {
        GeminiThinkingLevel::Medium
    } else if text::same(effort, "high") || text::same(effort, "xhigh") {
        GeminiThinkingLevel::High
    } else {
        GeminiThinkingLevel::Low
    }
}

/// Map reasoning effort to Gemini thinking level, whatever its case.
pub fn map_reasoning_effort_to_thinking_level(effort: &str) -> (r: GeminiThinkingLevel)
    ensures
        r == level_for(text::lowercased(effort@)),
{
    let lower = text::to_lower(effort);
    thinking_level_of(lower.as_str())
}

/// A level is the one that its own name asks for.
pub proof fn law_level_names_round_trip(l: GeminiThinkingLevel)
    ensures
        level_for(level_name(l)) == l,
{
    reveal_strlit("minimal");
    reveal_strlit("low");
    reveal_strlit("medium");
    reveal_strlit("high");
    reveal_strlit("xhigh");
    assert("high"@.len() == 4);
    assert("xhigh"@.len() == 5);
    assert("low"@.len() == 3);
    assert("medium"@.len() == 6);
    assert("minimal"@.len() == 7);
}

// ---------------------------------------------------------------------------
// Models
// ---------------------------------------------------------------------------

/// A thinking configuration with a level.
pub open spec fn levels(level: Seq<char>) -> Option<Thinking> {
    Some(
        Thinking {
            max_budget: None,
            output_price: None,
            output_price_tiers: None,
            gemini_thinking_level: Some(level),
            supports_thinking_level: Some(true),
        },
    )
}

/// A thinking configuration with a budget.
pub open spec fn budgets(max: u32, output_price: Option<u64>) -> Option<Thinking> {
    Some(
        Thinking {
            max_budget: Some(max),
            output_price,
            output_price_tiers: None,
            gemini_thinking_level: None,
            supports_thinking_level: Some(false),
        },
    )
}

/// The description of a model that is not in the table.
pub open spec fn unknown_model(id: Seq<char>) -> Model {
    Model {
        name: Some(id),
        max_tokens: Some(65_536),
        context_window: Some(1_048_576),
        supports_images: Some(true),
        supports_prompt_cache: true,
        supports_reasoning: Some(true),
        input_price: Some(4_000_000),
        output_price: Some(18_000_000),
        thinking_config: levels("high"@),
        supports_global_endpoint: Some(true),
        cache_writes_price: Some(4_000_000),
        cache_reads_price: Some(400_000),
        supports_tools: Some(true),
        api_format: Some("gemini"@),
        ..types::blank_model()
    }
}

/// The prices up to two hundred thousand tokens of input, and beyond.
pub open spec fn pro_tiers() -> Seq<ModelTier> {
    seq![
        ModelTier {
            context_window: 200_000,
            input_price: Some(2_000_000),
            output_price: Some(12_000_000),
            cache_writes_price: Some(2_000_000),
            cache_reads_price: Some(200_000),
        },
        ModelTier {
            context_window: u64::MAX,
            input_price: Some(4_000_000),
            output_price: Some(18_000_000),
            cache_writes_price: Some(4_000_000),
            cache_reads_price: Some(400_000),
        },
    ]
}

/// The description of a model. The more specific names come first.
pub open spec fn gemini_model(id: Seq<char>) -> Model {
    let m = unknown_model(id);
    if text::has(id, "gemini-3.1-flash-image"@) {
        Model {
            context_window: Some(128_000),
            input_price: Some(250_000),
            output_price: Some(67_000),
            ..m
        }
    } else if text::has(id, "gemini-3-pro-image"@) {
        Model {
            context_window: Some(65_000),
            input_price: Some(2_000_000),
            output_price: Some(134_000),
            ..m
        }
    } else if text::has(id, "gemini-3.1-flash-lite"@) {
        Model {
            input_price: Some(250_000),
            output_price: Some(1_500_000),
            cache_reads_price: Some(50_000),
            thinking_config: levels("minimal"@),
            ..m
        }
    } else if text::has(id, "gemini-3.1-pro"@) || text::has(id, "gemini-3-pro"@) {
        Model { tiers: Some(pro_tiers()), temperature: Some(1_000_000), ..m }
    } else if text::has(id, "gemini-3-flash"@) {
        Model {
            input_price: Some(500_000),
            output_price: Some(3_000_000),
            cache_reads_price: Some(50_000),
            temperature: Some(1_000_000),
            thinking_config: levels("minimal"@),
            ..m
        }
    } else if text::has(id, "gemini-2.5-pro"@) {
        Model {
            input_price: Some(2_500_000),
            output_price: Some(15_000_000),
            thinking_config: budgets(32_767, Some(15_000_000)),
            ..m
        }
    } else if text::has(id, "gemini-2.5-flash-lite"@) {
        Model {
            input_price: Some(100_000),
            output_price: Some(400_000),
            thinking_config: budgets(24_576, None),
            ..m
        }
    } else if text::has(id, "gemini-2.5-flash"@) {
        Model {
            input_price: Some(300_000),
            output_price: Some(2_500_000),
            thinking_config: budgets(24_576, Some(3_500_000)),
            ..m
        }
    } else {
        m
    }
}

fn make_levels(level: &str) -> (r: Option<ThinkingConfig>)
    ensures
        r is Some,
        Some((r->0)@) == levels(level@),
{
    Some(
        ThinkingConfig {
            max_budget: None,
            output_price: None,
            output_price_tiers: None,
            gemini_thinking_level: Some(level.to_owned()),
            supports_thinking_level: Some(true),
        },
    )
}

fn make_budgets(max: u32, output_price: Option<u64>) -> (r: Option<ThinkingConfig>)
    ensures
        r is Some,
        Some((r->0)@) == budgets(max, output_price),
{
    Some(
        ThinkingConfig {
            max_budget: Some(max),
            output_price,
            output_price_tiers: None,
            gemini_thinking_level: None,
            supports_thinking_level: Some(false),
        },
    )
}

fn make_unknown(id: &str) -> (r: ModelInfo)
    ensures
        r@ == unknown_model(id@),
{
    let mut m = ModelInfo::default();
    m.name = Some(id.to_owned());
    m.max_tokens = Some(65_536);
    m.context_window = Some(1_048_576);
    m.supports_images = Some(true);
    m.supports_prompt_cache = true;
    m.supports_reasoning = Some(true);
    m.input_price = Some(4_000_000);
    m.output_price = Some(18_000_000);
    m.thinking_config = make_levels("high");
    m.supports_global_endpoint = Some(true);
    m.cache_writes_price = Some(4_000_000);
    m.cache_reads_price = Some(400_000);
    m.supports_tools = Some(true);
    m.api_format = Some("gemini".to_owned());
    m
}

fn make_pro_tiers() -> (r: Vec<ModelTier>)
    ensures
        r@ == pro_tiers(),
{
    let mut v: Vec<ModelTier> = Vec::new();
    v.push(
        ModelTier {
            context_window: 200_000,
            input_price: Some(2_000_000),
            output_price: Some(12_000_000),
            cache_writes_price: Some(2_000_000),
            cache_reads_price: Some(200_000),
        },
    );
    v.push(
        ModelTier {
            context_window: u64::MAX,
            input_price: Some(4_000_000),
            output_price: Some(18_000_000),
            cache_writes_price: Some(4_000_000),
            cache_reads_price: Some(400_000),
        },
    );
    assert(v@ =~= pro_tiers());
    v
}

/// Get model info for Gemini models.
pub fn get_gemini_model_info(model_id: &str) -> (r: ModelInfo)
    ensures
        r@ == gemini_model(model_id@),
{
    let mut m = make_unknown(model_id);
    if text::contains(model_id, "gemini-3.1-flash-image") {
        m.context_window = Some(128_000);
        m.input_price = Some(250_000);
        m.output_price = Some(67_000);
    } else if text::contains(model_id, "gemini-3-pro-image") {
        m.context_window = Some(65_000);
        m.input_price = Some(2_000_000);
        m.output_price = Some(134_000);
    } else if text::contains(model_id, "gemini-3.1-flash-lite") {
        m.input_price = Some(250_000);
        m.output_price = Some(1_500_000);
        m.cache_reads_price = Some(50_000);
        m.thinking_config = make_levels("minimal");
    } else if text::contains(model_id, "gemini-3.1-pro") || text::contains(
        model_id,
        "gemini-3-pro",
    ) {
        m.tiers = Some(make_pro_tiers());
        m.temperature = Some(1_000_000);
    } else if text::contains(model_id, "gemini-3-flash") {
        m.input_price = Some(500_000);
        m.output_price = Some(3_000_000);
        m.cache_reads_price = Some(50_000);
        m.temperature = Some(1_000_000);
        m.thinking_config = make_levels("minimal");
    } else if text::contains(model_id, "gemini-2.5-pro") {
        m.input_price = Some(2_500_000);
        m.output_price = Some(15_000_000);
        m.thinking_config = make_budgets(32_767, Some(15_000_000));
    } else if text::contains(model_id, "gemini-2.5-flash-lite") {
        m.input_price = Some(100_000);
        m.output_price = Some(400_000);
        m.thinking_config = make_budgets(24_576, None);
    } else if text::contains(model_id, "gemini-2.5-flash") {
        m.input_price = Some(300_000);
        m.output_price = Some(2_500_000);
        m.thinking_config = make_budgets(24_576, Some(3_500_000));
    }
    m
}

// ---------------------------------------------------------------------------
// Tools
// ---------------------------------------------------------------------------

/// The key that the endpoint does not take in schemas.
pub open spec fn extra_key() -> Seq<char> {
    "additionalProperties"@
}

/// The members of an object but for those with a key.
pub open spec fn without_key(
    m: Seq<(Seq<char>, Tree)>,
    key: Seq<char>,
) -> Seq<(Seq<char>, Tree)>
    decreases m.len(),
{
    if m.len() == 0 {
        m
    } else if m.last().0 == key {
        without_key(m.drop_last(), key)
    } else {
        without_key(m.drop_last(), key).push(m.last())
    }
}

/// A property schema without the key that the endpoint does not take.
pub open spec fn stripped_property(t: Tree) -> Tree {
    match t {
        Tree::Obj(m) => Tree::Obj(without_key(m, extra_key())),
        _ => t,
    }
}

/// The property schemas without the key that the endpoint does not take.
pub open spec fn stripped_properties(t: Tree) -> Tree {
    match t {
        Tree::Obj(m) => Tree::Obj(
            m.map_values(|x: (Seq<char>, Tree)| (x.0, stripped_property(x.1))),
        ),
        _ => t,
    }
}

/// The parameters of a tool without the key that the endpoint does not take, neither
/// of their own nor in a property.
pub open spec fn stripped(t: Tree) -> Tree {
    match t {
        Tree::Obj(m) => Tree::Obj(
            without_key(m, extra_key()).map_values(
                |x: (Seq<char>, Tree)|
                    if x.0 == "properties"@ {
                        (x.0, stripped_properties(x.1))
                    } else {
                        x
                    },
            ),
        ),
        _ => t,
    }
}

/// No member of the parameters of a tool has the key that the endpoint does not take,
/// and the other members stay in their order.
pub proof fn law_stripped_has_no_extra_key(m: Seq<(Seq<char>, Tree)>, i: int)
    ensures
        stripped(Tree::Obj(m)).get(extra_key()) is None,
        0 <= i < m.len() && m[i].0 != extra_key() && m[i].0 != "properties"@ ==> exists|k: int|
            0 <= k < stripped(Tree::Obj(m))->Obj_0.len() && stripped(Tree::Obj(m))->Obj_0[k]
                == m[i],
{
    let n = stripped(Tree::Obj(m))->Obj_0;
    let w = without_key(m, extra_key());
    lemma_without_key(m, extra_key());
    json::lemma_key_index(n, extra_key());
    if let Some(k) = json::key_index(n, extra_key()) {
        assert(n[k].0 == w[k].0);
    }
    if 0 <= i < m.len() && m[i].0 != extra_key() && m[i].0 != "properties"@ {
        let k = choose|k: int| 0 <= k < w.len() && w[k] == m[i];
        assert(n[k] == m[i]);
    }
}

/// No property of the parameters of a tool has the key that the endpoint does not take.
pub proof fn law_properties_have_no_extra_key(m: Seq<(Seq<char>, Tree)>, i: int)
    requires
        0 <= i < m.len(),
    ensures
        stripped_properties(Tree::Obj(m))->Obj_0[i].0 == m[i].0,
        stripped_properties(Tree::Obj(m))->Obj_0[i].1.get(extra_key()) is None,
{
    if let Tree::Obj(n) = m[i].1 {
        let w = without_key(n, extra_key());
        lemma_without_key(n, extra_key());
        json::lemma_key_index(w, extra_key());
        if let Some(k) = json::key_index(w, extra_key()) {
            assert(w[k].0 != extra_key());
        }
    }
}

proof fn lemma_without_key(m: Seq<(Seq<char>, Tree)>, key: Seq<char>)
    ensures
        forall|i: int|
            0 <= i < without_key(m, key).len() ==> (#[trigger] without_key(m, key)[i]).0 != key,
        forall|i: int|
            #![trigger m[i]]
            0 <= i < m.len() && m[i].0 != key ==> exists|k: int|
                0 <= k < without_key(m, key).len() && without_key(m, key)[k] == m[i],
    decreases m.len(),
{
    if m.len() > 0 {
        let p = m.drop_last();
        let w = without_key(m, key);
        let u = without_key(p, key);
        lemma_without_key(p, key);
        assert forall|i: int| 0 <= i < w.len() implies (#[trigger] w[i]).0 != key by {
            if i < u.len() {
                assert(w[i] == u[i]);
            }
        }
        assert forall|i: int| #![trigger m[i]] 0 <= i < m.len() && m[i].0 != key implies exists|
            k: int,
        | 0 <= k < w.len() && w[k] == m[i] by {
            if i < p.len() {
                assert(p[i] == m[i]);
                let k = choose|k: int| 0 <= k < u.len() && u[k] == p[i];
                assert(w[k] == m[i]);
            } else {
                assert(w[w.len() - 1] == m[i]);
            }
        }
    }
}

fn push_member(v: &mut Vec<(String, Json)>, key: &String, j: Json)
    ensures
        json::members(final(v)@) == json::members(old(v)@).push((key@, j@)),
{
    v.push((key.clone(), j));
    assert(json::members(v@) =~= json::members(old(v)@).push((key@, j@)));
}

fn make_object(v: Vec<(String, Json)>) -> (r: Json)
    ensures
        r@ == Tree::Obj(json::members(v@)),
{
    let r = Json::Obj(v);
    assert(r@->Obj_0 =~= json::members(v@));
    r
}

fn strip_property(j: &Json) -> (r: Json)
    ensures
        r@ == stripped_property(j@),
{
    let m = match j.as_object() {
        Some(m) => m,
        None => return j.copy(),
    };
    let ghost ms = json::members(m@);
    let mut out: Vec<(String, Json)> = Vec::new();
    let mut i: usize = 0;
    assert(json::members(out@) =~= without_key(ms.take(0), extra_key()));
    while i < m.len()
        invariant
            i <= m@.len(),
            ms == json::members(m@),
            json::members(out@) == without_key(ms.take(i as int), extra_key()),
        decreases m@.len() - i,
    {
        assert(ms.take(i + 1).drop_last() =~= ms.take(i as int));
        assert(ms.take(i + 1).last() == (m@[i as int].0@, m@[i as int].1@));
        if !text::same(m[i].0.as_str(), "additionalProperties") {
            push_member(&mut out, &m[i].0, m[i].1.copy());
        }
        i = i + 1;
    }
    assert(ms.take(i as int) =~= ms);
    make_object(out)
}

fn strip_properties(j: &Json) -> (r: Json)
    ensures
        r@ == stripped_properties(j@),
{
    let m = match j.as_object() {
        Some(m) => m,
        None => return j.copy(),
    };
    let ghost ms = json::members(m@).map_values(
        |x: (Seq<char>, Tree)| (x.0, stripped_property(x.1)),
    );
    let mut out: Vec<(String, Json)> = Vec::new();
    let mut i: usize = 0;
    assert(json::members(out@) =~= ms.take(0));
    while i < m.len()
        invariant
            i <= m@.len(),
            ms == json::members(m@).map_values(
                |x: (Seq<char>, Tree)| (x.0, stripped_property(x.1)),
            ),
            json::members(out@) == ms.take(i as int),
        decreases m@.len() - i,
    {
        assert(ms[i as int] == (m@[i as int].0@, stripped_property(m@[i as int].1@)));
        push_member(&mut out, &m[i].0, strip_property(&m[i].1));
        assert(json::members(out@) =~= ms.take(i + 1));
        i = i + 1;
    }
    assert(ms.take(i as int) =~= ms);
    make_object(out)
}

/// The parameters of a tool without the key that the endpoint does not take.
pub fn strip_parameters(j: &Json) -> (r: Json)
    ensures
        r@ == stripped(j@),
{
    let m = match j.as_object() {
        Some(m) => m,
        None => return j.copy(),
    };
    let ghost ms = json::members(m@);
    let ghost f = |x: (Seq<char>, Tree)|
        if x.0 == "properties"@ {
            (x.0, stripped_properties(x.1))
        } else {
            x
        };
    let mut out: Vec<(String, Json)> = Vec::new();
    let mut i: usize = 0;
    assert(json::members(out@) =~= without_key(ms.take(0), extra_key()).map_values(f));
    while i < m.len()
        invariant
            i <= m@.len(),
            ms == json::members(m@),
            f == (|x: (Seq<char>, Tree)|
                if x.0 == "properties"@ {
                    (x.0, stripped_properties(x.1))
                } else {
                    x
                }),
            json::members(out@) == without_key(ms.take(i as int), extra_key()).map_values(f),
        decreases m@.len() - i,
    {
        assert(ms.take(i + 1).drop_last() =~= ms.take(i as int));
        assert(ms.take(i + 1).last() == (m@[i as int].0@, m@[i as int].1@));
        if !text::same(m[i].0.as_str(), "additionalProperties") {
            let ghost before = json::members(out@);
            if text::same(m[i].0.as_str(), "properties") {
                push_member(&mut out, &m[i].0, strip_properties(&m[i].1));
            } else {
                push_member(&mut out, &m[i].0, m[i].1.copy());
            }
            assert(json::members(out@) =~= before.push(f(ms[i as int])));
            assert(json::members(out@) =~= without_key(
                ms.take(i + 1),
                extra_key(),
            ).map_values(f));
        }
        i = i + 1;
    }
    assert(ms.take(i as int) =~= ms);
    make_object(out)
}

/// A tool as the endpoint takes it.
pub open spec fn declaration(t: ToolDefinition) -> Tree {
    json::empty_obj().put("name"@, Tree::Str(t.function.name@)).put(
        "description"@,
        Tree::Str(t.function.description@),
    ).put("parameters"@, stripped(t.function.parameters@))
}

/// The tools as the endpoint takes them.
pub open spec fn tools_tree(v: Seq<ToolDefinition>) -> Tree {
    Tree::Arr(
        seq![
            json::empty_obj().put(
                "functionDeclarations"@,
                Tree::Arr(v.map_values(|t: ToolDefinition| declaration(t))),
            ),
        ],
    )
}

fn make_tools(v: &Vec<ToolDefinition>) -> (r: Json)
    ensures
        r@ == tools_tree(v@),
{
    let mut out = chat_format::no_json();
    let ghost ts = v@.map_values(|t: ToolDefinition| declaration(t));
    let mut i: usize = 0;
    while i < v.len()
        invariant
            i <= v@.len(),
            ts == v@.map_values(|t: ToolDefinition| declaration(t)),
            json::trees(out@) =~= ts.take(i as int),
        decreases v@.len() - i,
    {
        let mut m = Json::object();
        m.put("name", Json::str(v[i].function.name.as_str()));
        m.put("description", Json::str(v[i].function.description.as_str()));
        m.put("parameters", strip_parameters(&v[i].function.parameters));
        assert(ts[i as int] == m@);
        chat_format::push_json(&mut out, m);
        i = i + 1;
    }
    assert(ts.take(i as int) =~= ts);
    let mut d = Json::object();
    d.put("functionDeclarations", Json::array(out));
    let mut list = chat_format::no_json();
    let ghost dt = d@;
    chat_format::push_json(&mut list, d);
    assert(json::trees(list@) =~= seq![dt]);
    Json::array(list)
}

/// How tools are chosen; by default the model decides.
pub open spec fn calling_config(c: Option<ToolChoice>) -> Tree {
    let e = json::empty_obj();
    match c {
        None => e.put("mode"@, Tree::Str("AUTO"@)),
        Some(ToolChoice::Auto) => e.put("mode"@, Tree::Str("AUTO"@)),
        Some(ToolChoice::Required) => e.put("mode"@, Tree::Str("ANY"@)),
        Some(ToolChoice::NoTool) => e.put("mode"@, Tree::Str("NONE"@)),
        Some(ToolChoice::Named(n)) => e.put("mode"@, Tree::Str("ANY"@)).put(
            "allowedFunctionNames"@,
            Tree::Arr(seq![Tree::Str(n@)]),
        ),
    }
}

fn make_calling_config(c: &Option<ToolChoice>) -> (r: Json)
    ensures
        r@ == calling_config(*c),
{
    let mut m = Json::object();
    match c {
        None => m.put("mode", Json::str("AUTO")),
        Some(ToolChoice::Auto) => m.put("mode", Json::str("AUTO")),
        Some(ToolChoice::Required) => m.put("mode", Json::str("ANY")),
        Some(ToolChoice::NoTool) => m.put("mode", Json::str("NONE")),
        Some(ToolChoice::Named(n)) => {
            m.put("mode", Json::str("ANY"));
            let mut list = chat_format::no_json();
            chat_format::push_json(&mut list, Json::str(n.as_str()));
            assert(json::trees(list@) =~= seq![Tree::Str(n@)]);
            m.put("allowedFunctionNames", Json::array(list));
        },
    }
    m
}

// ---------------------------------------------------------------------------
// Requests
// ---------------------------------------------------------------------------

/// Gemini provider.
pub struct GeminiProvider {
    pub config: GeminiConfig,
}

/// The mathematical value of a configuration.
pub struct Settings {
    pub api_key: Seq<char>,
    pub base_url: Option<Seq<char>>,
    pub model_id: Seq<char>,
    pub model: Option<Model>,
    pub budget: Option<u32>,
    pub effort: Option<Seq<char>>,
    pub search: bool,
}

impl View for GeminiConfig {
    type V = Settings;

    open spec fn view(&self) -> Settings {
        Settings {
            api_key: self.api_key@,
            base_url: text::opt(self.base_url),
            model_id: self.model_id@,
            model: match self.model_info {
                Some(i) => Some(i@),
                None => None,
            },
            budget: self.thinking_budget_tokens,
            effort: text::opt(self.reasoning_effort),
            search: self.search_enabled,
        }
    }
}

/// The model is of the third generation.
pub open spec fn is_third(id: Seq<char>) -> bool {
    text::has(id, "gemini-3"@)
}

/// The temperature: of the model, or else the one that suits its generation.
pub open spec fn temperature(s: Settings) -> u64 {
    match s.model {
        Some(Model { temperature: Some(t), .. }) => t,
        _ => if is_third(s.model_id) {
            1_000_000
        } else {
            700_000
        },
    }
}

/// The limit on the answer: of the request, or else of the model, if it is not zero,
/// within what the generation allows.
pub open spec fn output_limit(s: Settings, asked: Option<u32>) -> Option<u32> {
    let n = match asked {
        Some(k) => Some(k),
        None => match s.model {
            Some(m) => m.max_tokens,
            None => None,
        },
    };
    let cap: u32 = if is_third(s.model_id) {
        65_536
    } else {
        32_768
    };
    match n {
        Some(k) => if k == 0 {
            None
        } else if k < cap {
            Some(k)
        } else {
            Some(cap)
        },
        None => None,
    }
}

/// The effort that counts where none is set.
pub open spec fn default_effort(id: Seq<char>) -> Seq<char> {
    if text::has(id, "gemini-3-flash"@) {
        "minimal"@
    } else if is_third(id) {
        "high"@
    } else {
        "low"@
    }
}

/// The effort that counts.
pub open spec fn effort(s: Settings) -> Seq<char> {
    match s.effort {
        Some(e) => e,
        None => default_effort(s.model_id),
    }
}

/// The budget for thinking as a signed 32-bit number: dynamic where none is set, the
/// set one within the model's limit else.
pub open spec fn signed_budget(set: u32, max: u32) -> int {
    let n: int = if set < max {
        set as int
    } else {
        max as int
    };
    if set == 0 {
        -1
    } else if n <= i32::MAX {
        n
    } else {
        n - 0x1_0000_0000
    }
}

/// The configuration of thinking; `level` is the level that the effort asks for.
pub open spec fn thinking_tree(s: Settings, level: GeminiThinkingLevel) -> Option<Tree> {
    match s.model {
        Some(Model { thinking_config: Some(t), .. }) => {
            if t.supports_thinking_level == Some(true) {
                Some(
                    json::empty_obj().put("thinkingLevel"@, Tree::Str(level_name(level))).put(
                        "includeThoughts"@,
                        Tree::Bool(true),
                    ),
                )
            } else {
                match t.max_budget {
                    Some(max) => if max > 0 {
                        let set = match s.budget {
                            Some(b) => b,
                            None => 0,
                        };
                        Some(
                            json::empty_obj().put(
                                "thinkingBudget"@,
                                Tree::Int(signed_budget(set, max)),
                            ).put("includeThoughts"@, Tree::Bool(true)),
                        )
                    } else {
                        None
                    },
                    None => None,
                }
            }
        },
        _ => None,
    }
}

/// The generation configuration of a request.
pub open spec fn generation_tree(
    s: Settings,
    asked: Option<u32>,
    level: GeminiThinkingLevel,
) -> Tree {
    let a = json::empty_obj().put(
        "temperature"@,
        Tree::Real(text::micro_decimal(temperature(s) as nat)),
    ).put("topP"@, Tree::Real(text::micro_decimal(800_000)));
    let b = match output_limit(s, asked) {
        Some(n) => a.put("maxOutputTokens"@, Tree::Int(n as int)),
        None => a,
    };
    let c = minimax::put_opt(b, "thinkingConfig"@, thinking_tree(s, level));
    if s.search {
        c.put("includeServerSideToolInvocations"@, Tree::Bool(true))
    } else {
        c
    }
}

/// The body of a request; `level` is the thinking level that the effort asks for.
pub open spec fn request_body(
    s: Settings,
    r: ProviderRequest,
    level: GeminiThinkingLevel,
) -> Tree {
    let a = json::empty_obj().put(
        "contents"@,
        gemini_format::contents_tree(gemini_format::contents(r.messages@)),
    ).put("generationConfig"@, generation_tree(s, r.max_tokens, level));
    let b = if r.system_prompt@.len() > 0 {
        a.put(
            "systemInstruction"@,
            json::empty_obj().put(
                "parts"@,
                Tree::Arr(
                    seq![json::empty_obj().put("text"@, Tree::Str(r.system_prompt@))],
                ),
            ),
        )
    } else {
        a
    };
    match r.tools {
        Some(v) => if v@.len() > 0 {
            b.put("tools"@, tools_tree(v@)).put(
                "toolConfig"@,
                json::empty_obj().put("functionCallingConfig"@, calling_config(r.tool_choice)),
            )
        } else {
            b
        },
        None => b,
    }
}

/// The address of the endpoint.
pub open spec fn address(base: Option<Seq<char>>) -> Seq<char> {
    match base {
        Some(u) => if u.len() > 0 {
            text::without_tail(text::trimmed(u), '/')
        } else {
            "https://generativelanguage.googleapis.com/v1beta"@
        },
        None => "https://generativelanguage.googleapis.com/v1beta"@,
    }
}

/// The description of a model that a configuration gives, or else the table's.
pub open spec fn model_of(s: Settings) -> Model {
    match s.model {
        Some(m) => m,
        None => gemini_model(s.model_id),
    }
}

impl GeminiProvider {
    /// A provider with a configuration.
    pub fn new(config: GeminiConfig) -> (r: GeminiProvider)
        ensures
            r.config == config,
    {
        GeminiProvider { config }
    }

    /// The headers of a request.
    pub fn build_headers(&self) -> (r: Vec<(String, String)>)
        ensures
            text::pair_texts(r@) == seq![
                ("x-goog-api-key"@, self.config.api_key@),
                ("content-type"@, "application/json"@),
            ],
    {
        let mut v: Vec<(String, String)> = Vec::new();
        v.push(("x-goog-api-key".to_owned(), self.config.api_key.clone()));
        v.push(("content-type".to_owned(), "application/json".to_owned()));
        assert(text::pair_texts(v@) =~= seq![
            ("x-goog-api-key"@, self.config.api_key@),
            ("content-type"@, "application/json"@),
        ]);
        v
    }

    /// The address of the endpoint: the one that is set, without slashes at its end, or
    /// else Google's.
    pub fn base_url(&self) -> (r: String)
        ensures
            r@ == address(text::opt(self.config.base_url)),
    {
        if let Some(u) = &self.config.base_url {
            if !u.as_str().is_empty() {
                let t = text::trim(u.as_str());
                return text::trim_tail(t.as_str(), '/');
            }
        }
        "https://generativelanguage.googleapis.com/v1beta".to_owned()
    }

    /// The address for a streamed answer.
    pub fn stream_url(&self) -> (r: String)
        ensures
            r@ == address(text::opt(self.config.base_url)) + "/models/"@ + self.config.model_id@
                + ":streamGenerateContent?alt=sse"@,
    {
        let mut s = self.base_url();
        text::push_text(&mut s, "/models/");
        text::push_text(&mut s, self.config.model_id.as_str());
        text::push_text(&mut s, ":streamGenerateContent?alt=sse");
        s
    }

    /// The effort that counts.
    pub fn effort(&self) -> (r: String)
        ensures
            r@ == effort(self.config@),
    {
        match &self.config.reasoning_effort {
            Some(e) => e.clone(),
            None => {
                let id = self.config.model_id.as_str();
                if text::contains(id, "gemini-3-flash") {
                    "minimal".to_owned()
                } else if text::contains(id, "gemini-3") {
                    "high".to_owned()
                } else {
                    "low".to_owned()
                }
            },
        }
    }

    fn make_thinking(&self, level: GeminiThinkingLevel) -> (r: Option<Json>)
        ensures
            types::opt_tree(r) == thinking_tree(self.config@, level),
    {
        let t = match &self.config.model_info {
            Some(i) => match &i.thinking_config {
                Some(t) => t,
                None => return None,
            },
            None => return None,
        };
        let by_level = match t.supports_thinking_level {
            Some(b) => b,
            None => false,
        };
        if by_level {
            let mut m = Json::object();
            m.put("thinkingLevel", Json::str(level.as_str()));
            m.put("includeThoughts", Json::Bool(true));
            return Some(m);
        }
        let max: u32 = match t.max_budget {
            Some(m) => m,
            None => 0,
        };
        if max == 0 {
            return None;
        }
        let set: u32 = match self.config.thinking_budget_tokens {
            Some(b) => b,
            None => 0,
        };
        let least: u32 = if set < max {
            set
        } else {
            max
        };
        let budget: i128 = if set == 0 {
            -1
        } else if least <= 0x7fff_ffff {
            least as i128
        } else {
            least as i128 - 0x1_0000_0000
        };
        let mut m = Json::object();
        m.put("thinkingBudget", Json::Int(budget));
        m.put("includeThoughts", Json::Bool(true));
        Some(m)
    }

    fn make_generation(&self, asked: Option<u32>, level: GeminiThinkingLevel) -> (r: Json)
        ensures
            r@ == generation_tree(self.config@, asked, level),
    {
        let third = text::contains(self.config.model_id.as_str(), "gemini-3");
        let own: Option<u64> = match &self.config.model_info {
            Some(i) => i.temperature,
            None => None,
        };
        let warmth: u64 = match own {
            Some(t) => t,
            None => if third {
                1_000_000
            } else {
                700_000
            },
        };
        let mut g = Json::object();
        g.put("temperature", Json::Real(text::micro_text(warmth)));
        g.put("topP", Json::Real(text::micro_text(800_000)));
        let wanted: Option<u32> = match asked {
            Some(k) => Some(k),
            None => match &self.config.model_info {
                Some(i) => i.max_tokens,
                None => None,
            },
        };
        if let Some(k) = wanted {
            if k > 0 {
                let cap: u32 = if third {
                    65_536
                } else {
                    32_768
                };
                let n: u32 = if k < cap {
                    k
                } else {
                    cap
                };
                g.put("maxOutputTokens", Json::Int(n as i128));
            }
        }
        if let Some(t) = self.make_thinking(level) {
            g.put("thinkingConfig", t);
        }
        if self.config.search_enabled {
            g.put("includeServerSideToolInvocations", Json::Bool(true));
        }
        g
    }

    /// The body of a request at a thinking level.
    pub fn build_body_at(&self, request: &ProviderRequest, level: GeminiThinkingLevel) -> (r: Json)
        ensures
            r@ == request_body(self.config@, *request, level),
    {
        let contents = gemini_format::convert_to_gemini_contents(&request.messages);
        let mut body = Json::object();
        body.put("contents", gemini_format::make_contents_json(&contents));
        body.put("generationConfig", self.make_generation(request.max_tokens, level));
        if !request.system_prompt.as_str().is_empty() {
            let mut part = Json::object();
            part.put("text", Json::str(request.system_prompt.as_str()));
            let ghost pt = part@;
            let mut parts = chat_format::no_json();
            chat_format::push_json(&mut parts, part);
            assert(json::trees(parts@) =~= seq![pt]);
            let mut s = Json::object();
            s.put("parts", Json::array(parts));
            body.put("systemInstruction", s);
        }
        if let Some(tools) = &request.tools {
            if tools.len() > 0 {
                body.put("tools", make_tools(tools));
                let mut c = Json::object();
                c.put("functionCallingConfig", make_calling_config(&request.tool_choice));
                body.put("toolConfig", c);
            }
        }
        body
    }

    /// The body of a request.
    pub fn build_request_body(&self, request: &ProviderRequest) -> (r: Json)
        ensures
            r@ == request_body(
                self.config@,
                *request,
                level_for(text::lowercased(effort(self.config@))),
            ),
    {
        let e = self.effort();
        let level = map_reasoning_effort_to_thinking_level(e.as_str());
        self.build_body_at(request, level)
    }

    /// The model that the provider talks to.
    pub fn get_model(&self) -> (r: ProviderModel)
        ensures
            r.id@ == self.config.model_id@,
            r.info@ == model_of(self.config@),
    {
        let info = match &self.config.model_info {
            Some(i) => i.copy(),
            None => get_gemini_model_info(self.config.model_id.as_str()),
        };
        ProviderModel { id: self.config.model_id.clone(), info }
    }

    /// The name of the provider.
    pub fn name(&self) -> (r: &'static str)
        ensures
            r@ == "gemini"@,
    {
        "gemini"
    }
}

} // verus!
