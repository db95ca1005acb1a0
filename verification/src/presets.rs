//! The built-in provider presets.
use vstd::prelude::*;

use crate::config::{providers_view, ProviderConfig, ProviderV};

verus! {

/// A preset with no custom models, wire API `responses`.
pub open spec fn preset_v(
    id: Seq<char>,
    name: Seq<char>,
    base_url: Seq<char>,
    api_key_env: Seq<char>,
    default_model: Seq<char>,
    api_model: Seq<char>,
) -> ProviderV {
    ProviderV {
        id,
        name,
        base_url,
        api_key_env,
        default_model,
        api_model,
        wire_api: "responses"@,
        custom_models: Seq::empty(),
    }
}

/// The built-in presets, in menu order.
pub open spec fn builtin_presets_v() -> Seq<ProviderV> {
    seq![
        preset_v(
            "deepseek"@,
            "DeepSeek"@,
            "https://api.deepseek.com/v1"@,
            "DEEPSEEK_API_KEY"@,
            "deepseek-v4-pro"@,
            "deepseek-v4-pro"@,
        ),
        preset_v(
            "qwen"@,
            "千问"@,
            "https://dashscope.aliyuncs.com/compatible-mode/v1"@,
            "DASHSCOPE_API_KEY"@,
            "qwen3.7-max"@,
            "qwen3.7-max"@,
        ),
        preset_v(
            "zhipu"@,
            "智谱"@,
            "https://open.bigmodel.cn/api/paas/v4"@,
            "ZHIPU_API_KEY"@,
            "glm-5.1"@,
            "glm-5.1"@,
        ),
        preset_v(
            "kimi"@,
            "Kimi"@,
            "https://api.moonshot.cn/v1"@,
            "MOONSHOT_API_KEY"@,
            "kimi-k2.6"@,
            "kimi-k2.6"@,
        ),
        preset_v(
            "minimax"@,
            "Minimax"@,
            "https://api.minimaxi.com/v1"@,
            "MINIMAX_API_KEY"@,
            "minimax-m3"@,
            "MiniMax-M3"@,
        ),
        preset_v(
            "mimo"@,
            "小米 MiMo"@,
            "https://api.xiaomimimo.com/v1"@,
            "MIMO_API_KEY"@,
            "mimo-v2.5-pro"@,
            "mimo-v2.5-pro"@,
        ),
        preset_v("custom"@, "中转站"@, ""@, "CUSTOM_API_KEY"@, "gpt-5.5"@, "gpt-5.5"@),
    ]
}

/// The built-in provider presets.
pub fn builtin_presets() -> (r: Vec<ProviderConfig>)
    ensures
        providers_view(r@) == builtin_presets_v(),
{
    let mut v: Vec<ProviderConfig> = Vec::new();
    v.push(
        ProviderConfig::new(
            "deepseek",
            "DeepSeek",
            "https://api.deepseek.com/v1",
            "DEEPSEEK_API_KEY",
            "deepseek-v4-pro",
            "deepseek-v4-pro",
            "responses",
        ),
    );
    v.push(
        ProviderConfig::new(
            "qwen",
            "千问",
            "https://dashscope.aliyuncs.com/compatible-mode/v1",
            "DASHSCOPE_API_KEY",
            "qwen3.7-max",
            "qwen3.7-max",
            "responses",
        ),
    );
    v.push(
        ProviderConfig::new(
            "zhipu",
            "智谱",
            "https://open.bigmodel.cn/api/paas/v4",
            "ZHIPU_API_KEY",
            "glm-5.1",
            "glm-5.1",
            "responses",
        ),
    );
    v.push(
        ProviderConfig::new(
            "kimi",
            "Kimi",
            "https://api.moonshot.cn/v1",
            "MOONSHOT_API_KEY",
            "kimi-k2.6",
            "kimi-k2.6",
            "responses",
        ),
    );
    v.push(
        ProviderConfig::new(
            "minimax",
            "Minimax",
            "https://api.minimaxi.com/v1",
            "MINIMAX_API_KEY",
            "minimax-m3",
            "MiniMax-M3",
            "responses",
        ),
    );
    v.push(
        ProviderConfig::new(
            "mimo",
            "小米 MiMo",
            "https://api.xiaomimimo.com/v1",
            "MIMO_API_KEY",
            "mimo-v2.5-pro",
            "mimo-v2.5-pro",
            "responses",
        ),
    );
    v.push(
        ProviderConfig::new(
            "custom",
            "中转站",
            "",
            "CUSTOM_API_KEY",
            "gpt-5.5",
            "gpt-5.5",
            "responses",
        ),
    );
    assert(providers_view(v@) =~= builtin_presets_v());
    v
}

proof fn lemma_preset_ids_apart()
    ensures
        "deepseek"@ != "qwen"@,
        "deepseek"@ != "zhipu"@,
        "deepseek"@ != "kimi"@,
        "deepseek"@ != "minimax"@,
        "deepseek"@ != "mimo"@,
        "deepseek"@ != "custom"@,
        "qwen"@ != "zhipu"@,
        "qwen"@ != "kimi"@,
        "qwen"@ != "minimax"@,
        "qwen"@ != "mimo"@,
        "qwen"@ != "custom"@,
        "zhipu"@ != "kimi"@,
        "zhipu"@ != "minimax"@,
        "zhipu"@ != "mimo"@,
        "zhipu"@ != "custom"@,
        "kimi"@ != "minimax"@,
        "kimi"@ != "mimo"@,
        "kimi"@ != "custom"@,
        "minimax"@ != "mimo"@,
        "minimax"@ != "custom"@,
        "mimo"@ != "custom"@,
{
    reveal_strlit("deepseek");
    reveal_strlit("qwen");
    reveal_strlit("zhipu");
    reveal_strlit("kimi");
    reveal_strlit("minimax");
    reveal_strlit("mimo");
    reveal_strlit("custom");
    assert("deepseek"@.len() == 8 && "qwen"@.len() == 4 && "zhipu"@.len() == 5 && "kimi"@.len() == 4
        && "minimax"@.len() == 7 && "mimo"@.len() == 4 && "custom"@.len() == 6);
    assert("qwen"@[0] != "kimi"@[0]);
    assert("qwen"@[0] != "mimo"@[0]);
    assert("kimi"@[0] != "mimo"@[0]);
}

/// Law: the built-in presets have distinct ids and a non-empty key variable,
/// and each one's default model is one of its listed models, with the
/// preset's API model.
pub proof fn lemma_presets_are_consistent()
    ensures
        forall|i: int, j: int|
            0 <= i < j < builtin_presets_v().len() ==> builtin_presets_v()[i].id != builtin_presets_v()[j].id,
        forall|i: int|
            0 <= i < builtin_presets_v().len() ==> {
                let p = #[trigger] builtin_presets_v()[i];
                &&& p.api_key_env.len() > 0
                &&& crate::models::first_with_slug(crate::models::popular_models_v(p.id), p.default_model)
                    matches Some(m) && m.api_model == p.api_model
            },
{
    lemma_preset_ids_apart();
    let ps = builtin_presets_v();
    reveal_strlit("DEEPSEEK_API_KEY");
    reveal_strlit("DASHSCOPE_API_KEY");
    reveal_strlit("ZHIPU_API_KEY");
    reveal_strlit("MOONSHOT_API_KEY");
    reveal_strlit("MINIMAX_API_KEY");
    reveal_strlit("MIMO_API_KEY");
    reveal_strlit("CUSTOM_API_KEY");
    assert forall|i: int|
        0 <= i < ps.len() implies {
            let p = #[trigger] ps[i];
            &&& p.api_key_env.len() > 0
            &&& crate::models::first_with_slug(crate::models::popular_models_v(p.id), p.default_model)
                matches Some(m) && m.api_model == p.api_model
        } by {
        let p = ps[i];
        let ms = crate::models::popular_models_v(p.id);
        assert(ms.len() > 0 && ms[0].slug == p.default_model && ms[0].api_model == p.api_model);
        assert(crate::models::first_with_slug(ms, p.default_model) == Some(ms[0]));
    }
}

} // verus!
