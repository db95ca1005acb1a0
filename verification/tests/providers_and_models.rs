use codex_helper::config::{AppConfig, CustomModelEntry, ProviderConfig};
use codex_helper::models::{
    apply_model_variant, custom_models_to_text, ensure_valid_model, find_model,
    format_context_window, menu_tag, models_for_provider, parse_custom_models_text,
    popular_models, tray_model_label, variant_to_entry, ModelsError,
};
use codex_helper::provider::{get_preset, list_presets, migrate_legacy_providers, sync_builtin_presets};
use codex_helper::reasoning::{
    provider_needs_reasoning_content, provider_supports_reasoning_effort_levels,
    supported_reasoning_levels_for_catalog,
};

fn provider(id: &str, model: &str) -> ProviderConfig {
    ProviderConfig::new(id, id, "https://example.com/v1", "KEY", model, model, "responses")
}

fn provider_at(id: &str, base_url: &str) -> ProviderConfig {
    ProviderConfig::new(id, id, base_url, "KEY", "model", "model", "responses")
}

#[test]
fn each_provider_lists_only_core_models() {
    assert_eq!(popular_models("deepseek").len(), 2);
    assert_eq!(popular_models("qwen").len(), 2);
    assert_eq!(popular_models("zhipu").len(), 3);
    assert_eq!(popular_models("kimi").len(), 1);
    assert_eq!(popular_models("minimax").len(), 1);
    assert_eq!(popular_models("mimo").len(), 3);
    assert_eq!(popular_models("custom").len(), 3);
}

#[test]
fn menu_tags_are_defined_for_core_models() {
    assert_eq!(find_model("deepseek", "deepseek-v4-pro").unwrap().menu_tag, "pro");
    assert_eq!(find_model("qwen", "qwen3.7-plus").unwrap().menu_tag, "plus");
}

#[test]
fn tray_model_label_includes_context() {
    let model = variant_to_entry(&find_model("deepseek", "deepseek-v4-flash").unwrap());
    assert_eq!(tray_model_label(&model, true), "✓ DeepSeek V4 Flash · 1M");
    let glm = variant_to_entry(&find_model("zhipu", "glm-5.1").unwrap());
    assert_eq!(tray_model_label(&glm, false), "GLM-5.1（旗舰） · 200K");
}

#[test]
fn parse_custom_models_text_supports_multiple_formats() {
    let models = match parse_custom_models_text(
        "gpt-5.5\ngpt-4o|gpt-4o-2024-08-06\nGPT-5.4|gpt-5.4|gpt-5.4",
    ) {
        Ok(m) => m,
        Err(_) => panic!("the list should parse"),
    };
    assert_eq!(models.len(), 3);
    assert_eq!(models[0].slug, "gpt-5.5");
    assert_eq!(models[1].api_model, "gpt-4o-2024-08-06");
    assert_eq!(models[2].display_name, "GPT-5.4");
}

#[test]
fn models_for_provider_uses_custom_models_when_present() {
    let mut provider = provider("custom", "gpt-5.5");
    provider.custom_models = vec![CustomModelEntry {
        slug: "my-model".into(),
        api_model: "upstream-id".into(),
        display_name: "My Model".into(),
        context_window: 256_000,
    }];
    let models = models_for_provider(&provider);
    assert_eq!(models.len(), 1);
    assert_eq!(models[0].api_model, "upstream-id");
}

#[test]
fn format_context_window_labels() {
    assert_eq!(format_context_window(1_000_000), "1M");
    assert_eq!(format_context_window(256_000), "256K");
    assert_eq!(format_context_window(128_000), "128K");
}

#[test]
fn migrates_deprecated_and_legacy_slugs() {
    let cases = [
        ("deepseek", "deepseek-chat", "deepseek-v4-flash"),
        ("deepseek", "deepseek-reasoner", "deepseek-v4-pro"),
        ("qwen", "qwen-plus", "qwen3.7-plus"),
        ("zhipu", "glm-4-flash", "glm-5.1"),
        ("kimi", "moonshot-v1-128k", "kimi-k2.6"),
        ("minimax", "minimax-m2.5", "minimax-m3"),
    ];
    for (id, old, expected) in cases {
        let mut p = provider(id, old);
        ensure_valid_model(&mut p);
        assert_eq!(p.default_model, expected, "{id}/{old}");
    }
}

#[test]
fn sync_adds_minimax_to_legacy_config() {
    let mut app = AppConfig::default();
    app.remove_provider("minimax");
    app.remove_provider("kimi");
    sync_builtin_presets(&mut app);
    assert!(app.has_provider("minimax"));
    assert!(app.has_provider("kimi"));
    assert_eq!(app.provider("qwen").unwrap().name, "千问");
}

#[test]
fn deepseek_enables_thinking_and_effort() {
    let config = provider_at("deepseek", "https://api.deepseek.com/v1").codex_chat_reasoning_config();
    let config = config.unwrap();
    assert_eq!(config.supports_thinking, Some(true));
    assert_eq!(config.supports_effort, Some(true));
    assert_eq!(config.effort_value_mode.as_deref(), Some("deepseek"));
}

#[test]
fn openrouter_custom_uses_native_reasoning_object() {
    let config = provider_at("custom", "https://openrouter.ai/api/v1")
        .codex_chat_reasoning_config()
        .unwrap();
    assert_eq!(config.effort_param.as_deref(), Some("reasoning.effort"));
    assert_eq!(config.thinking_param.as_deref(), Some("none"));
}

#[test]
fn builtin_providers_use_vendor_native_thinking_shapes() {
    let minimax = provider_at("minimax", "https://api.minimaxi.com/v1")
        .codex_chat_reasoning_config()
        .unwrap();
    assert_eq!(minimax.thinking_type_when_enabled.as_deref(), Some("adaptive"));
    let zhipu = provider_at("zhipu", "https://open.bigmodel.cn/api/paas/v4")
        .codex_chat_reasoning_config()
        .unwrap();
    assert_eq!(zhipu.thinking_param.as_deref(), Some("thinking"));
    assert_eq!(zhipu.effort_param.as_deref(), Some("none"));
    let kimi = provider_at("kimi", "https://api.moonshot.cn/v1")
        .codex_chat_reasoning_config()
        .unwrap();
    assert_eq!(kimi.thinking_keep_when_enabled.as_deref(), Some("all"));
}

#[test]
fn effort_levels_only_for_deepseek_and_openrouter() {
    assert!(provider_supports_reasoning_effort_levels(&provider_at(
        "deepseek",
        "https://api.deepseek.com/v1"
    )));
    assert!(!provider_supports_reasoning_effort_levels(&provider_at(
        "kimi",
        "https://api.moonshot.cn/v1"
    )));
    assert!(provider_supports_reasoning_effort_levels(&provider_at(
        "custom",
        "https://openrouter.ai/api/v1"
    )));
    assert!(supported_reasoning_levels_for_catalog(&provider_at(
        "qwen",
        "https://dashscope.aliyuncs.com/compatible-mode/v1"
    ))
    .is_none());
}

#[test]
fn preserve_tool_call_reasoning_differs_for_qwen_and_mimo() {
    assert!(!provider_needs_reasoning_content(&provider_at(
        "qwen",
        "https://dashscope.aliyuncs.com/compatible-mode/v1"
    )));
    assert!(provider_needs_reasoning_content(&provider_at(
        "mimo",
        "https://api.xiaomimimo.com/v1"
    )));
}

#[test]
fn custom_models_text_round_trips_through_the_parser() {
    let entries = vec![
        CustomModelEntry {
            slug: "gpt-5.5".into(),
            api_model: "gpt-5.5".into(),
            display_name: "gpt-5.5".into(),
            context_window: 128_000,
        },
        CustomModelEntry {
            slug: "my-model".into(),
            api_model: "upstream-id".into(),
            display_name: "My Model".into(),
            context_window: 256_000,
        },
    ];
    let text = custom_models_to_text(&entries);
    let parsed = match parse_custom_models_text(&text) {
        Ok(m) => m,
        Err(_) => panic!("the rendered list should parse"),
    };
    assert_eq!(parsed.len(), 2);
    assert_eq!(parsed[1].slug, "my-model");
    assert_eq!(parsed[1].api_model, "upstream-id");
    assert_eq!(parsed[1].display_name, "My Model");
    assert_eq!(parsed[1].context_window, 128_000);
}

#[test]
fn duplicate_custom_slugs_are_rejected() {
    match parse_custom_models_text("a\nb\na") {
        Err(ModelsError::DuplicateSlug(s)) => assert_eq!(s, "a"),
        _ => panic!("a repeated slug is an error"),
    }
}

#[test]
fn unknown_model_is_refused_and_leaves_provider_unchanged() {
    let mut p = provider("deepseek", "deepseek-v4-flash");
    match apply_model_variant(&mut p, "no-such-model") {
        Err(ModelsError::UnknownModel(s)) => assert_eq!(s, "no-such-model"),
        _ => panic!("an unknown slug is an error"),
    }
    assert_eq!(p.default_model, "deepseek-v4-flash");
    assert!(apply_model_variant(&mut p, "deepseek-v4-pro").is_ok());
    assert_eq!(p.default_model, "deepseek-v4-pro");
}

#[test]
fn ensure_valid_model_keeps_a_listed_model() {
    let mut p = provider("qwen", "qwen3.7-max");
    ensure_valid_model(&mut p);
    assert_eq!(p.default_model, "qwen3.7-max");
}

#[test]
fn menu_tag_follows_the_selected_model() {
    let p = provider("deepseek", "deepseek-v4-pro");
    assert_eq!(menu_tag(&p).as_deref(), Some("pro"));
}

#[test]
fn presets_are_listed_in_menu_order() {
    let app = AppConfig::default();
    let ids: Vec<String> = list_presets(&app).iter().map(|p| p.id.clone()).collect();
    assert_eq!(ids.first().map(String::as_str), Some("deepseek"));
    assert_eq!(ids, vec!["deepseek", "qwen", "zhipu", "kimi", "minimax", "mimo", "custom"]);
    assert!(get_preset(&app, "qwen").is_ok());
    assert!(get_preset(&app, "nope").is_err());
}

#[test]
fn legacy_moonshot_becomes_kimi() {
    let mut app = AppConfig::default();
    let moonshot = ProviderConfig::new(
        "moonshot",
        "Moonshot",
        "https://api.moonshot.cn/v1",
        "MOONSHOT_API_KEY",
        "moonshot-v1-128k",
        "moonshot-v1-128k",
        "chat",
    );
    app.remove_provider("kimi");
    app.insert_provider(moonshot);
    app.active = "moonshot".to_string();
    migrate_legacy_providers(&mut app);
    assert_eq!(app.active, "kimi");
    assert!(!app.has_provider("moonshot"));
    assert!(app.has_provider("kimi"));
}

#[test]
fn sync_keeps_the_relay_base_url_and_resets_official_ones() {
    let mut app = AppConfig::default();
    for p in app.providers.iter_mut() {
        if p.id == "custom" {
            p.base_url = "https://relay.example.com/v1".to_string();
        }
        if p.id == "deepseek" {
            p.base_url = "https://elsewhere.example.com".to_string();
        }
    }
    sync_builtin_presets(&mut app);
    assert_eq!(app.provider("custom").unwrap().base_url, "https://relay.example.com/v1");
    assert_eq!(app.provider("deepseek").unwrap().base_url, AppConfig::default().provider("deepseek").unwrap().base_url);
}
