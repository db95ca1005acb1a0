//! Rewrites the Responses-style `reasoning` field of a Chat request into the
//! parameters each provider's Chat API understands.
use vstd::prelude::*;

use crate::config::ProviderConfig;
use crate::json::{get_str_v, get_v, remove_v, set_v, Json, JsonV};
use crate::reasoning::{
    codex_chat_reasoning_config_for, config_for_v, opt_view, CodexChatReasoningConfig, ReasoningV,
};
use crate::text::{ascii_lowercase, lower_seq, str_eq, trim, trim_seq};

verus! {

/// `s` trimmed and lower-cased.
pub open spec fn norm_v(s: Seq<char>) -> Seq<char> {
    lower_seq(trim_seq(s))
}

fn norm(s: &str) -> (r: String)
    ensures
        r@ == norm_v(s@),
{
    let t = trim(s);
    ascii_lowercase(t.as_str())
}

/// An effort that turns reasoning off.
pub open spec fn is_off_v(e: Seq<char>) -> bool {
    e == "none"@ || e == "off"@ || e == "disabled"@
}

/// Whether a request's `reasoning` asks for reasoning: its `effort`, when a
/// string, decides; otherwise any non-null value does. `None` when absent.
pub open spec fn reasoning_requested_v(reasoning: Option<JsonV>) -> Option<bool> {
    match reasoning {
        None => None,
        Some(r) => match get_str_v(r, "effort"@) {
            Some(e) => Some(!is_off_v(norm_v(e))),
            None => Some(!(r is Null)),
        },
    }
}

fn reasoning_requested(reasoning: Option<&Json>) -> (r: Option<bool>)
    ensures
        r == reasoning_requested_v(
            match reasoning {
                Some(j) => Some(j@),
                None => None,
            },
        ),
{
    let reasoning = match reasoning {
        Some(j) => j,
        None => {
            return None;
        },
    };
    match reasoning.get_str("effort") {
        Some(effort) => {
            let e = norm(effort);
            let off = str_eq(e.as_str(), "none") || str_eq(e.as_str(), "off") || str_eq(
                e.as_str(),
                "disabled",
            );
            Some(!off)
        },
        None => Some(!reasoning.is_null()),
    }
}

/// The upstream effort for a Codex effort under a value mode (`passthrough`
/// when unset); `None` when the effort turns reasoning off or is unknown.
pub open spec fn map_effort_v(effort: Seq<char>, mode: Option<Seq<char>>) -> Option<Seq<char>> {
    let e = norm_v(effort);
    let m = match mode {
        Some(m) => m,
        None => "passthrough"@,
    };
    if is_off_v(e) {
        None
    } else if m == "deepseek"@ {
        if e == "max"@ || e == "xhigh"@ {
            Some("max"@)
        } else {
            Some("high"@)
        }
    } else if m == "low_high"@ {
        if e == "minimal"@ || e == "low"@ {
            Some("low"@)
        } else {
            Some("high"@)
        }
    } else if m == "openrouter"@ {
        if e == "max"@ || e == "xhigh"@ {
            Some("xhigh"@)
        } else if e == "high"@ || e == "medium"@ || e == "low"@ || e == "minimal"@ {
            Some(e)
        } else {
            None
        }
    } else if e == "minimal"@ || e == "low"@ || e == "medium"@ || e == "high"@ || e == "xhigh"@
        || e == "max"@ {
        Some(e)
    } else {
        None
    }
}

/// Maps a Codex reasoning effort to the provider's value.
pub fn map_reasoning_effort(effort: &str, mode: Option<&str>) -> (r: Option<&'static str>)
    ensures
        match map_effort_v(effort@, match mode {
            Some(m) => Some(m@),
            None => None,
        }) {
            Some(s) => r is Some && r->0@ == s,
            None => r is None,
        },
{
    let e = norm(effort);
    let e = e.as_str();
    if str_eq(e, "none") || str_eq(e, "off") || str_eq(e, "disabled") {
        return None;
    }
    let m = match mode {
        Some(m) => m,
        None => "passthrough",
    };
    if str_eq(m, "deepseek") {
        if str_eq(e, "max") || str_eq(e, "xhigh") {
            Some("max")
        } else {
            Some("high")
        }
    } else if str_eq(m, "low_high") {
        if str_eq(e, "minimal") || str_eq(e, "low") {
            Some("low")
        } else {
            Some("high")
        }
    } else if str_eq(m, "openrouter") {
        if str_eq(e, "max") || str_eq(e, "xhigh") {
            Some("xhigh")
        } else if str_eq(e, "high") {
            Some("high")
        } else if str_eq(e, "medium") {
            Some("medium")
        } else if str_eq(e, "low") {
            Some("low")
        } else if str_eq(e, "minimal") {
            Some("minimal")
        } else {
            None
        }
    } else if str_eq(e, "minimal") {
        Some("minimal")
    } else if str_eq(e, "low") {
        Some("low")
    } else if str_eq(e, "medium") {
        Some("medium")
    } else if str_eq(e, "high") {
        Some("high")
    } else if str_eq(e, "xhigh") {
        Some("xhigh")
    } else if str_eq(e, "max") {
        Some("max")
    } else {
        None
    }
}

/// `o` or a default.
pub open spec fn or_v(o: Option<Seq<char>>, d: Seq<char>) -> Seq<char> {
    match o {
        Some(s) => s,
        None => d,
    }
}

/// The `thinking` object: `type`, then `keep` and `clear_thinking` when
/// reasoning is on and the provider asks for them.
pub open spec fn thinking_object_v(config: ReasoningV, enabled: bool) -> JsonV {
    let t = seq![
        (
            "type"@,
            JsonV::Str(
                if enabled {
                    or_v(config.thinking_type_when_enabled, "enabled"@)
                } else {
                    "disabled"@
                },
            ),
        ),
    ];
    let t1 = match (enabled, config.thinking_keep_when_enabled) {
        (true, Some(k)) => t.push(("keep"@, JsonV::Str(k))),
        _ => t,
    };
    let t2 = match (enabled, config.thinking_clear_thinking_when_enabled) {
        (true, Some(c)) => t1.push(("clear_thinking"@, JsonV::Bool(c))),
        _ => t1,
    };
    JsonV::Object(t2)
}

/// The request with the provider's thinking switch set.
pub open spec fn thinking_param_v(chat: JsonV, config: ReasoningV, enabled: bool) -> JsonV {
    let param = norm_v(or_v(config.thinking_param, "thinking"@));
    if param == "thinking"@ {
        let c1 = set_v(chat, "thinking"@, thinking_object_v(config, enabled));
        if enabled && config.reasoning_split_when_enabled == Some(true) {
            set_v(c1, "reasoning_split"@, JsonV::Bool(true))
        } else {
            c1
        }
    } else if param == "enable_thinking"@ {
        set_v(chat, "enable_thinking"@, JsonV::Bool(enabled))
    } else if param == "reasoning_split"@ {
        set_v(chat, "reasoning_split"@, JsonV::Bool(enabled))
    } else {
        chat
    }
}

/// `{ "effort": e }`.
pub open spec fn effort_object_v(e: Seq<char>) -> JsonV {
    JsonV::Object(seq![("effort"@, JsonV::Str(e))])
}

/// A Chat request after translating its `reasoning` for a provider of shape
/// `config`. Unchanged when it has no `reasoning`.
pub open spec fn apply_reasoning_v(chat: JsonV, config: ReasoningV) -> JsonV {
    let supports_effort = config.supports_effort == Some(true);
    let supports_thinking = config.supports_thinking == Some(true) || supports_effort;
    match reasoning_requested_v(get_v(chat, "reasoning"@)) {
        None => chat,
        Some(enabled) => {
            let c1 = if supports_thinking {
                thinking_param_v(chat, config, enabled)
            } else {
                chat
            };
            let effort_param = norm_v(or_v(config.effort_param, "reasoning_effort"@));
            if !enabled {
                if effort_param == "reasoning.effort"@ {
                    set_v(c1, "reasoning"@, effort_object_v("none"@))
                } else {
                    remove_v(c1, "reasoning"@)
                }
            } else if !supports_effort {
                remove_v(c1, "reasoning"@)
            } else {
                let effort = match get_v(c1, "reasoning"@) {
                    Some(r) => get_str_v(r, "effort"@),
                    None => None,
                };
                match effort {
                    None => remove_v(c1, "reasoning"@),
                    Some(e) => match map_effort_v(e, config.effort_value_mode) {
                        None => remove_v(c1, "reasoning"@),
                        Some(m) => if effort_param == "reasoning_effort"@ {
                            remove_v(set_v(c1, "reasoning_effort"@, JsonV::Str(m)), "reasoning"@)
                        } else if effort_param == "reasoning.effort"@ {
                            set_v(c1, "reasoning"@, effort_object_v(m))
                        } else {
                            remove_v(c1, "reasoning"@)
                        },
                    },
                }
            }
        },
    }
}

/// A Chat request after translating its `reasoning` for `provider`;
/// unchanged for a provider without a known shape.
pub open spec fn apply_reasoning_options_v(chat: JsonV, p: crate::config::ProviderV) -> JsonV {
    match config_for_v(p) {
        Some(c) => apply_reasoning_v(chat, c),
        None => chat,
    }
}

fn single_entry(key: &str, value: Json) -> (r: Json)
    ensures
        r@ == JsonV::Object(seq![(key@, value@)]),
{
    let mut o = Json::Null;
    o.set(key, value);
    o
}

fn thinking_object(config: &CodexChatReasoningConfig, enabled: bool) -> (r: Json)
    ensures
        r@ == thinking_object_v(config@, enabled),
{
    let ty = if enabled {
        match &config.thinking_type_when_enabled {
            Some(t) => Json::Str(t.clone()),
            None => Json::str_of("enabled"),
        }
    } else {
        Json::str_of("disabled")
    };
    let mut e: Vec<(String, Json)> = Vec::new();
    let tk = "type".to_string();
    proof {
        crate::json::lemma_view_entries_empty();
        crate::json::lemma_view_entries_push(e@, tk, ty);
    }
    e.push((tk, ty));
    let ghost t0 = seq![("type"@, ty@)];
    proof {
        assert(crate::json::view_entries(e@) =~= t0);
    }
    if enabled {
        match &config.thinking_keep_when_enabled {
            Some(k) => {
                let ghost before = e@;
                let kv = Json::Str(k.clone());
                let kk = "keep".to_string();
                proof {
                    crate::json::lemma_view_entries_push(before, kk, kv);
                }
                e.push((kk, kv));
            },
            None => {},
        }
        match config.thinking_clear_thinking_when_enabled {
            Some(c) => {
                let ghost before = e@;
                let ck = "clear_thinking".to_string();
                proof {
                    crate::json::lemma_view_entries_push(before, ck, Json::Bool(c));
                }
                e.push((ck, Json::Bool(c)));
            },
            None => {},
        }
    }
    let r = Json::Object(e);
    proof {
        reveal_strlit("type");
        reveal_strlit("keep");
        reveal_strlit("clear_thinking");
        reveal_strlit("enabled");
        reveal_strlit("disabled");
    }
    r
}

fn apply_thinking_param(chat: &mut Json, config: &CodexChatReasoningConfig, enabled: bool)
    requires
        old(chat)@ is Object,
    ensures
        final(chat)@ == thinking_param_v(old(chat)@, config@, enabled),
        final(chat)@ is Object,
{
    let param = match &config.thinking_param {
        Some(p) => norm(p.as_str()),
        None => norm("thinking"),
    };
    let p = param.as_str();
    if str_eq(p, "thinking") {
        let t = thinking_object(config, enabled);
        chat.set("thinking", t);
        if enabled && config.reasoning_split_when_enabled == Some(true) {
            chat.set("reasoning_split", Json::Bool(true));
        }
    } else if str_eq(p, "enable_thinking") {
        chat.set("enable_thinking", Json::Bool(enabled));
    } else if str_eq(p, "reasoning_split") {
        chat.set("reasoning_split", Json::Bool(enabled));
    }
}

/// Translates the request's `reasoning` for a provider of shape `config`.
pub fn apply_reasoning_options_with_config(chat: &mut Json, config: &CodexChatReasoningConfig)
    ensures
        final(chat)@ == apply_reasoning_v(old(chat)@, config@),
{
    let supports_effort = match config.supports_effort {
        Some(b) => b,
        None => false,
    };
    let supports_thinking = match config.supports_thinking {
        Some(b) => b,
        None => false,
    } || supports_effort;
    let reasoning_enabled = match reasoning_requested(chat.get("reasoning")) {
        Some(b) => b,
        None => {
            return ;
        },
    };
    assert(chat@ is Object);
    if supports_thinking {
        apply_thinking_param(chat, config, reasoning_enabled);
    }
    let effort_param = match &config.effort_param {
        Some(p) => norm(p.as_str()),
        None => norm("reasoning_effort"),
    };
    let ep = effort_param.as_str();
    if !reasoning_enabled {
        if str_eq(ep, "reasoning.effort") {
            chat.set("reasoning", single_entry("effort", Json::str_of("none")));
        } else {
            chat.remove("reasoning");
        }
        return ;
    }
    if !supports_effort {
        chat.remove("reasoning");
        return ;
    }
    let effort: Option<String> = match chat.get("reasoning") {
        Some(r) => match r.get_str("effort") {
            Some(e) => Some(e.to_string()),
            None => None,
        },
        None => None,
    };
    let effort = match effort {
        Some(e) => e,
        None => {
            chat.remove("reasoning");
            return ;
        },
    };
    let mode: Option<&str> = match &config.effort_value_mode {
        Some(m) => Some(m.as_str()),
        None => None,
    };
    let mapped = match map_reasoning_effort(effort.as_str(), mode) {
        Some(m) => m,
        None => {
            chat.remove("reasoning");
            return ;
        },
    };
    if str_eq(ep, "reasoning_effort") {
        chat.set("reasoning_effort", Json::str_of(mapped));
        chat.remove("reasoning");
    } else if str_eq(ep, "reasoning.effort") {
        chat.set("reasoning", single_entry("effort", Json::str_of(mapped)));
    } else {
        chat.remove("reasoning");
    }
}

/// Translates the request's `reasoning` for `provider`.
pub fn apply_reasoning_options(chat: &mut Json, provider: &ProviderConfig)
    ensures
        final(chat)@ == apply_reasoning_options_v(old(chat)@, provider@),
{
    match codex_chat_reasoning_config_for(provider) {
        Some(config) => apply_reasoning_options_with_config(chat, &config),
        None => {},
    }
}

} // verus!
