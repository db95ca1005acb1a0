//! How each provider takes Codex's `reasoning` request on its Chat API, and
//! the rewriting of a Chat request body accordingly.
use vstd::prelude::*;

use crate::config::{ProviderConfig, ProviderV};
use crate::json::{
    get_str_v, get_v, remove_v, set_v, view_entries, Json, JsonV,
};
use crate::text::{ascii_lowercase, contains, contains_seq, lower_seq, owned, str_eq, trim, trim_seq};

verus! {

/// What a provider's Chat API accepts for reasoning.
pub struct CodexChatReasoningConfig {
    pub supports_thinking: Option<bool>,
    pub supports_effort: Option<bool>,
    pub thinking_param: Option<String>,
    pub effort_param: Option<String>,
    pub effort_value_mode: Option<String>,
    pub output_format: Option<String>,
    /// Whether multi-turn tool history needs a `reasoning_content` on
    /// assistant tool calls (DeepSeek, Kimi, …; not Qwen).
    pub preserve_tool_call_reasoning: Option<bool>,
    /// `thinking.type` when reasoning is on (`enabled` unless given).
    pub thinking_type_when_enabled: Option<String>,
    /// Whether to add `reasoning_split` when reasoning is on.
    pub reasoning_split_when_enabled: Option<bool>,
    /// `thinking.keep` when reasoning is on.
    pub thinking_keep_when_enabled: Option<String>,
    /// `thinking.clear_thinking` when reasoning is on.
    pub thinking_clear_thinking_when_enabled: Option<bool>,
}

pub struct ReasoningV {
    pub supports_thinking: Option<bool>,
    pub supports_effort: Option<bool>,
    pub thinking_param: Option<Seq<char>>,
    pub effort_param: Option<Seq<char>>,
    pub effort_value_mode: Option<Seq<char>>,
    pub output_format: Option<Seq<char>>,
    pub preserve_tool_call_reasoning: Option<bool>,
    pub thinking_type_when_enabled: Option<Seq<char>>,
    pub reasoning_split_when_enabled: Option<bool>,
    pub thinking_keep_when_enabled: Option<Seq<char>>,
    pub thinking_clear_thinking_when_enabled: Option<bool>,
}

pub open spec fn opt_view(o: Option<String>) -> Option<Seq<char>> {
    match o {
        Some(s) => Some(s@),
        None => None,
    }
}

impl View for CodexChatReasoningConfig {
    type V = ReasoningV;

    open spec fn view(&self) -> ReasoningV {
        ReasoningV {
            supports_thinking: self.supports_thinking,
            supports_effort: self.supports_effort,
            thinking_param: opt_view(self.thinking_param),
            effort_param: opt_view(self.effort_param),
            effort_value_mode: opt_view(self.effort_value_mode),
            output_format: opt_view(self.output_format),
            preserve_tool_call_reasoning: self.preserve_tool_call_reasoning,
            thinking_type_when_enabled: opt_view(self.thinking_type_when_enabled),
            reasoning_split_when_enabled: self.reasoning_split_when_enabled,
            thinking_keep_when_enabled: opt_view(self.thinking_keep_when_enabled),
            thinking_clear_thinking_when_enabled: self.thinking_clear_thinking_when_enabled,
        }
    }
}

/// Every field unset.
pub open spec fn unset_v() -> ReasoningV {
    ReasoningV {
        supports_thinking: None,
        supports_effort: None,
        thinking_param: None,
        effort_param: None,
        effort_value_mode: None,
        output_format: None,
        preserve_tool_call_reasoning: None,
        thinking_type_when_enabled: None,
        reasoning_split_when_enabled: None,
        thinking_keep_when_enabled: None,
        thinking_clear_thinking_when_enabled: None,
    }
}

fn unset() -> (r: CodexChatReasoningConfig)
    ensures
        r@ == unset_v(),
{
    CodexChatReasoningConfig {
        supports_thinking: None,
        supports_effort: None,
        thinking_param: None,
        effort_param: None,
        effort_value_mode: None,
        output_format: None,
        preserve_tool_call_reasoning: None,
        thinking_type_when_enabled: None,
        reasoning_split_when_enabled: None,
        thinking_keep_when_enabled: None,
        thinking_clear_thinking_when_enabled: None,
    }
}

/// DeepSeek: `thinking` plus `reasoning_effort` in DeepSeek's two levels.
pub open spec fn deepseek_v() -> ReasoningV {
    ReasoningV {
        supports_thinking: Some(true),
        supports_effort: Some(true),
        thinking_param: Some("thinking"@),
        effort_param: Some("reasoning_effort"@),
        effort_value_mode: Some("deepseek"@),
        output_format: Some("reasoning_content"@),
        preserve_tool_call_reasoning: Some(true),
        ..unset_v()
    }
}

/// Kimi: `thinking` with `keep: all`.
pub open spec fn kimi_v() -> ReasoningV {
    ReasoningV {
        supports_thinking: Some(true),
        supports_effort: Some(false),
        thinking_param: Some("thinking"@),
        effort_param: Some("none"@),
        output_format: Some("reasoning_content"@),
        preserve_tool_call_reasoning: Some(true),
        thinking_keep_when_enabled: Some("all"@),
        ..unset_v()
    }
}

/// Zhipu GLM: `thinking` only.
pub open spec fn zhipu_v() -> ReasoningV {
    ReasoningV {
        supports_thinking: Some(true),
        supports_effort: Some(false),
        thinking_param: Some("thinking"@),
        effort_param: Some("none"@),
        output_format: Some("reasoning_content"@),
        preserve_tool_call_reasoning: Some(false),
        ..unset_v()
    }
}

/// MiniMax: `thinking.type = adaptive` and `reasoning_split`.
pub open spec fn minimax_v() -> ReasoningV {
    ReasoningV {
        supports_thinking: Some(true),
        supports_effort: Some(false),
        thinking_param: Some("thinking"@),
        effort_param: Some("none"@),
        output_format: Some("reasoning_content"@),
        preserve_tool_call_reasoning: Some(true),
        thinking_type_when_enabled: Some("adaptive"@),
        reasoning_split_when_enabled: Some(true),
        ..unset_v()
    }
}

/// A provider that only takes an on/off switch named `param`.
pub open spec fn thinking_only_v(param: Seq<char>, preserve: bool) -> ReasoningV {
    ReasoningV {
        supports_thinking: Some(true),
        supports_effort: Some(false),
        thinking_param: Some(param),
        effort_param: Some("none"@),
        output_format: Some("reasoning_content"@),
        preserve_tool_call_reasoning: Some(preserve),
        ..unset_v()
    }
}

/// OpenRouter: the native `reasoning.effort` object, no thinking switch.
pub open spec fn openrouter_v() -> ReasoningV {
    ReasoningV {
        supports_thinking: Some(false),
        supports_effort: Some(true),
        thinking_param: Some("none"@),
        effort_param: Some("reasoning.effort"@),
        effort_value_mode: Some("openrouter"@),
        output_format: Some("auto"@),
        preserve_tool_call_reasoning: Some(false),
        ..unset_v()
    }
}

/// The relay's reasoning shape, guessed from its (lower-cased) base URL.
pub open spec fn infer_custom_v(base_url: Seq<char>) -> Option<ReasoningV> {
    let base = lower_seq(base_url);
    if contains_seq(base, "moonshot"@) || contains_seq(base, "kimi"@) {
        Some(kimi_v())
    } else if contains_seq(base, "bigmodel"@) || contains_seq(base, "zhipu"@) {
        Some(zhipu_v())
    } else if contains_seq(base, "deepseek"@) {
        Some(deepseek_v())
    } else if contains_seq(base, "openrouter"@) {
        Some(openrouter_v())
    } else if contains_seq(base, "dashscope"@) || contains_seq(base, "aliyun"@) {
        Some(thinking_only_v("enable_thinking"@, false))
    } else if contains_seq(base, "minimax"@) {
        Some(minimax_v())
    } else if contains_seq(base, "mimo"@) {
        Some(thinking_only_v("enable_thinking"@, true))
    } else {
        None
    }
}

/// The reasoning shape of provider `p`.
pub open spec fn config_for_v(p: ProviderV) -> Option<ReasoningV> {
    if p.id == "deepseek"@ {
        Some(deepseek_v())
    } else if p.id == "kimi"@ {
        Some(kimi_v())
    } else if p.id == "qwen"@ {
        Some(thinking_only_v("enable_thinking"@, false))
    } else if p.id == "minimax"@ {
        Some(minimax_v())
    } else if p.id == "mimo"@ {
        Some(thinking_only_v("enable_thinking"@, true))
    } else if p.id == "zhipu"@ {
        Some(zhipu_v())
    } else if p.id == "custom"@ {
        infer_custom_v(p.base_url)
    } else {
        None
    }
}

fn some_str(s: &str) -> (r: Option<String>)
    ensures
        opt_view(r) == Some(s@),
{
    Some(owned(s))
}

fn deepseek_thinking() -> (r: CodexChatReasoningConfig)
    ensures
        r@ == deepseek_v(),
{
    CodexChatReasoningConfig {
        supports_thinking: Some(true),
        supports_effort: Some(true),
        thinking_param: some_str("thinking"),
        effort_param: some_str("reasoning_effort"),
        effort_value_mode: some_str("deepseek"),
        output_format: some_str("reasoning_content"),
        preserve_tool_call_reasoning: Some(true),
        ..unset()
    }
}

fn kimi_thinking() -> (r: CodexChatReasoningConfig)
    ensures
        r@ == kimi_v(),
{
    CodexChatReasoningConfig {
        supports_thinking: Some(true),
        supports_effort: Some(false),
        thinking_param: some_str("thinking"),
        effort_param: some_str("none"),
        output_format: some_str("reasoning_content"),
        preserve_tool_call_reasoning: Some(true),
        thinking_keep_when_enabled: some_str("all"),
        ..unset()
    }
}

fn zhipu_thinking() -> (r: CodexChatReasoningConfig)
    ensures
        r@ == zhipu_v(),
{
    CodexChatReasoningConfig {
        supports_thinking: Some(true),
        supports_effort: Some(false),
        thinking_param: some_str("thinking"),
        effort_param: some_str("none"),
        output_format: some_str("reasoning_content"),
        preserve_tool_call_reasoning: Some(false),
        ..unset()
    }
}

fn minimax_thinking() -> (r: CodexChatReasoningConfig)
    ensures
        r@ == minimax_v(),
{
    CodexChatReasoningConfig {
        supports_thinking: Some(true),
        supports_effort: Some(false),
        thinking_param: some_str("thinking"),
        effort_param: some_str("none"),
        output_format: some_str("reasoning_content"),
        preserve_tool_call_reasoning: Some(true),
        thinking_type_when_enabled: some_str("adaptive"),
        reasoning_split_when_enabled: Some(true),
        ..unset()
    }
}

fn thinking_only(thinking_param: &str, preserve_tool_call_reasoning: bool) -> (r:
    CodexChatReasoningConfig)
    ensures
        r@ == thinking_only_v(thinking_param@, preserve_tool_call_reasoning),
{
    CodexChatReasoningConfig {
        supports_thinking: Some(true),
        supports_effort: Some(false),
        thinking_param: some_str(thinking_param),
        effort_param: some_str("none"),
        output_format: some_str("reasoning_content"),
        preserve_tool_call_reasoning: Some(preserve_tool_call_reasoning),
        ..unset()
    }
}

fn openrouter_reasoning() -> (r: CodexChatReasoningConfig)
    ensures
        r@ == openrouter_v(),
{
    CodexChatReasoningConfig {
        supports_thinking: Some(false),
        supports_effort: Some(true),
        thinking_param: some_str("none"),
        effort_param: some_str("reasoning.effort"),
        effort_value_mode: some_str("openrouter"),
        output_format: some_str("auto"),
        preserve_tool_call_reasoning: Some(false),
        ..unset()
    }
}

fn infer_custom_reasoning_config(base_url: &str) -> (r: Option<CodexChatReasoningConfig>)
    ensures
        match infer_custom_v(base_url@) {
            Some(c) => r is Some && r->0@ == c,
            None => r is None,
        },
{
    let base = ascii_lowercase(base_url);
    let b = base.as_str();
    if contains(b, "moonshot") || contains(b, "kimi") {
        return Some(kimi_thinking());
    }
    if contains(b, "bigmodel") || contains(b, "zhipu") {
        return Some(zhipu_thinking());
    }
    if contains(b, "deepseek") {
        return Some(deepseek_thinking());
    }
    if contains(b, "openrouter") {
        return Some(openrouter_reasoning());
    }
    if contains(b, "dashscope") || contains(b, "aliyun") {
        return Some(thinking_only("enable_thinking", false));
    }
    if contains(b, "minimax") {
        return Some(minimax_thinking());
    }
    if contains(b, "mimo") {
        return Some(thinking_only("enable_thinking", true));
    }
    None
}

/// The reasoning shape of `provider`'s Chat API.
pub fn codex_chat_reasoning_config_for(provider: &ProviderConfig) -> (r: Option<
    CodexChatReasoningConfig,
>)
    ensures
        match config_for_v(provider@) {
            Some(c) => r is Some && r->0@ == c,
            None => r is None,
        },
{
    let id = provider.id.as_str();
    if str_eq(id, "deepseek") {
        Some(deepseek_thinking())
    } else if str_eq(id, "kimi") {
        Some(kimi_thinking())
    } else if str_eq(id, "qwen") {
        Some(thinking_only("enable_thinking", false))
    } else if str_eq(id, "minimax") {
        Some(minimax_thinking())
    } else if str_eq(id, "mimo") {
        Some(thinking_only("enable_thinking", true))
    } else if str_eq(id, "zhipu") {
        Some(zhipu_thinking())
    } else if str_eq(id, "custom") {
        infer_custom_reasoning_config(provider.base_url.as_str())
    } else {
        None
    }
}

impl ProviderConfig {
    /// The reasoning shape of this provider's Chat API.
    pub fn codex_chat_reasoning_config(&self) -> (r: Option<CodexChatReasoningConfig>)
        ensures
            match config_for_v(self@) {
                Some(c) => r is Some && r->0@ == c,
                None => r is None,
            },
    {
        codex_chat_reasoning_config_for(self)
    }
}

/// Whether Codex's reasoning levels map to distinct upstream strengths.
pub open spec fn supports_effort_levels_v(p: ProviderV) -> bool {
    match config_for_v(p) {
        Some(c) => c.supports_effort == Some(true),
        None => false,
    }
}

/// Whether the provider's reasoning levels map to distinct upstream strengths.
pub fn provider_supports_reasoning_effort_levels(provider: &ProviderConfig) -> (r: bool)
    ensures
        r == supports_effort_levels_v(provider@),
{
    match codex_chat_reasoning_config_for(provider) {
        Some(c) => match c.supports_effort {
            Some(b) => b,
            None => false,
        },
        None => false,
    }
}

/// Whether assistant tool calls in history need a `reasoning_content`.
pub open spec fn needs_reasoning_content_v(p: ProviderV) -> bool {
    match config_for_v(p) {
        Some(c) => c.preserve_tool_call_reasoning == Some(true),
        None => false,
    }
}

/// Whether the provider needs `reasoning_content` on assistant tool calls.
pub fn provider_needs_reasoning_content(provider: &ProviderConfig) -> (r: bool)
    ensures
        r == needs_reasoning_content_v(provider@),
{
    match provider.codex_chat_reasoning_config() {
        Some(c) => match c.preserve_tool_call_reasoning {
            Some(b) => b,
            None => false,
        },
        None => false,
    }
}

// ---------------------------------------------------------------------------
// Reasoning levels for the model catalog

/// A catalog level `{ "description": d, "effort": e }`.
pub open spec fn level_v(description: Seq<char>, effort: Seq<char>) -> JsonV {
    JsonV::Object(seq![("description"@, JsonV::Str(description)), ("effort"@, JsonV::Str(effort))])
}

/// The catalog's `supported_reasoning_levels` for provider `p`, when its
/// reasoning has levels.
pub open spec fn catalog_levels_v(p: ProviderV) -> Option<JsonV> {
    if !supports_effort_levels_v(p) {
        None
    } else {
        let mode = match config_for_v(p) {
            Some(c) => match c.effort_value_mode {
                Some(m) => m,
                None => Seq::empty(),
            },
            None => Seq::empty(),
        };
        if mode == "deepseek"@ {
            Some(
                JsonV::Array(
                    seq![
                        level_v("均衡"@, "medium"@),
                        level_v("更强推理"@, "high"@),
                        level_v("极限推理"@, "xhigh"@),
                    ],
                ),
            )
        } else if mode == "openrouter"@ {
            Some(
                JsonV::Array(
                    seq![
                        level_v("关闭推理"@, "none"@),
                        level_v("极快"@, "minimal"@),
                        level_v("更快"@, "low"@),
                        level_v("均衡"@, "medium"@),
                        level_v("更强推理"@, "high"@),
                        level_v("极限推理"@, "xhigh"@),
                    ],
                ),
            )
        } else {
            Some(
                JsonV::Array(
                    seq![
                        level_v("更快"@, "low"@),
                        level_v("均衡"@, "medium"@),
                        level_v("更强推理"@, "high"@),
                        level_v("极限推理"@, "xhigh"@),
                    ],
                ),
            )
        }
    }
}

fn level(description: &str, effort: &str) -> (r: Json)
    ensures
        r@ == level_v(description@, effort@),
{
    let mut o = Json::empty_object();
    o.set("description", Json::str_of(description));
    o.set("effort", Json::str_of(effort));
    proof {
        reveal_strlit("description");
        reveal_strlit("effort");
        assert(!crate::json::has_key(Seq::empty(), "description"@));
        let e1 = seq![("description"@, JsonV::Str(description@))];
        assert(Seq::<(Seq<char>, JsonV)>::empty().push(("description"@, JsonV::Str(description@))) =~= e1);
        assert("description"@.len() != "effort"@.len());
        assert(e1[0].0 != "effort"@);
        assert(!crate::json::has_key(e1, "effort"@));
        assert(e1.push(("effort"@, JsonV::Str(effort@))) =~= seq![
            ("description"@, JsonV::Str(description@)),
            ("effort"@, JsonV::Str(effort@)),
        ]);
    }
    o
}

/// The `supported_reasoning_levels` written into the model catalog; `None`
/// when the provider's reasoning has no levels.
pub fn supported_reasoning_levels_for_catalog(provider: &ProviderConfig) -> (r: Option<Json>)
    ensures
        match catalog_levels_v(provider@) {
            Some(v) => r is Some && r->0@ == v,
            None => r is None,
        },
{
    if !provider_supports_reasoning_effort_levels(provider) {
        return None;
    }
    let mode = match codex_chat_reasoning_config_for(provider) {
        Some(c) => match c.effort_value_mode {
            Some(m) => m,
            None => String::new(),
        },
        None => String::new(),
    };
    let mut items: Vec<Json> = Vec::new();
    if str_eq(mode.as_str(), "deepseek") {
        items.push(level("均衡", "medium"));
        items.push(level("更强推理", "high"));
        items.push(level("极限推理", "xhigh"));
    } else if str_eq(mode.as_str(), "openrouter") {
        items.push(level("关闭推理", "none"));
        items.push(level("极快", "minimal"));
        items.push(level("更快", "low"));
        items.push(level("均衡", "medium"));
        items.push(level("更强推理", "high"));
        items.push(level("极限推理", "xhigh"));
    } else {
        items.push(level("更快", "low"));
        items.push(level("均衡", "medium"));
        items.push(level("更强推理", "high"));
        items.push(level("极限推理", "xhigh"));
    }
    let r = Json::array_of(items);
    proof {
        let v = catalog_levels_v(provider@);
        assert(r@ == v->0) by {
            assert(crate::json::view_items(items@) =~= match v {
                Some(JsonV::Array(a)) => a,
                _ => Seq::empty(),
            });
        }
    }
    Some(r)
}

} // verus!
