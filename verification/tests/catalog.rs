use codex_helper::catalog::{
    build_merged_catalog, catalog_models, ensure_required_v26_fields, load_catalog_template,
};
use codex_helper::config::AppConfig;
use codex_helper::json::Json;
use codex_helper::models::popular_models;
use serde_json::Value;
use std::collections::HashSet;

fn to_json(v: &Value) -> Json {
    match v {
        Value::Null => Json::Null,
        Value::Bool(b) => Json::Bool(*b),
        Value::Number(n) => Json::Number(n.to_string()),
        Value::String(s) => Json::Str(s.clone()),
        Value::Array(a) => Json::Array(a.iter().map(to_json).collect()),
        Value::Object(o) => Json::Object(o.iter().map(|(k, v)| (k.clone(), to_json(v))).collect()),
    }
}

fn from_json(j: &Json) -> Value {
    match j {
        Json::Null => Value::Null,
        Json::Bool(b) => Value::Bool(*b),
        Json::Number(t) => serde_json::from_str(t).unwrap(),
        Json::Str(s) => Value::String(s.clone()),
        Json::Array(a) => Value::Array(a.iter().map(from_json).collect()),
        Json::Object(o) => {
            let mut m = serde_json::Map::new();
            for (k, v) in o {
                if !m.contains_key(k) {
                    m.insert(k.clone(), from_json(v));
                }
            }
            Value::Object(m)
        }
    }
}

/// The catalog built with no earlier catalog on disk.
fn fresh_catalog(app: &AppConfig) -> Value {
    let existing = catalog_models(None);
    let template = load_catalog_template(None);
    let catalog = build_merged_catalog(app, &existing, &template).ok().unwrap();
    from_json(&catalog)
}

#[test]
fn catalog_exposes_reasoning_levels_only_for_effort_providers() {
    let mut app = AppConfig::default();
    app.model_reasoning_effort = "high".into();

    app.active = "deepseek".into();
    let deepseek = fresh_catalog(&app);
    let deepseek_model = &deepseek["models"].as_array().unwrap()[0];
    assert!(deepseek_model.get("supported_reasoning_levels").is_some());
    assert_eq!(deepseek_model["default_reasoning_level"], "high");

    app.active = "kimi".into();
    let kimi = fresh_catalog(&app);
    let kimi_model = &kimi["models"].as_array().unwrap()[0];
    assert!(kimi_model.get("supported_reasoning_levels").is_none());
    assert!(kimi_model.get("default_reasoning_level").is_none());
}

#[test]
fn catalog_lists_only_active_provider_models() {
    let app = AppConfig::default();
    let catalog = fresh_catalog(&app);
    let slugs: HashSet<String> = catalog["models"]
        .as_array()
        .unwrap()
        .iter()
        .filter_map(|m| m.get("slug").and_then(|v| v.as_str()))
        .map(str::to_string)
        .collect();

    let expected: HashSet<String> = popular_models("deepseek")
        .iter()
        .map(|v| v.slug.to_string())
        .collect();
    assert_eq!(slugs, expected);

    assert!(!slugs.contains("qwen3.7-max"));
    assert!(!slugs.contains("glm-5"));
}

#[test]
fn active_model_is_listed_first_with_its_display_name() {
    let app = AppConfig::default();
    let catalog = fresh_catalog(&app);
    let models = catalog["models"].as_array().unwrap();
    let active = app.provider("deepseek").unwrap().default_model.clone();
    assert_eq!(models[0]["slug"], active.as_str());
    for m in models {
        assert_eq!(m["visibility"], "list");
        assert_eq!(m["supported_in_api"], true);
        assert_eq!(m["base_instructions"], "You are a helpful coding agent.");
        assert_eq!(m["truncation_policy"]["limit"], 100000);
        assert_eq!(m["context_window"], m["max_context_window"]);
    }
}

#[test]
fn earlier_catalog_entries_keep_their_labels() {
    let app = AppConfig::default();
    let earlier = to_json(
        &serde_json::from_str::<Value>(
            r#"{"models":[
                {"slug":"deepseek-v4-pro","display_name":"My Pro","description":"mine","priority":5,"extra":1},
                {"slug":"gpt-4o","display_name":"other"}
            ]}"#,
        )
        .unwrap(),
    );
    let existing = catalog_models(Some(&earlier));
    assert_eq!(existing.len(), 2);
    let template = load_catalog_template(Some(&earlier));
    let catalog = from_json(&build_merged_catalog(&app, &existing, &template).ok().unwrap());
    let models = catalog["models"].as_array().unwrap();
    let pro = models.iter().find(|m| m["slug"] == "deepseek-v4-pro").unwrap();
    assert_eq!(pro["description"], "mine");
    assert_eq!(pro["extra"], 1);
    assert_eq!(pro["priority"], 1000);
    assert!(models.iter().all(|m| m["slug"] != "gpt-4o"));
}

#[test]
fn missing_required_fields_are_added_but_present_ones_kept() {
    let mut m = to_json(&serde_json::from_str::<Value>(r#"{"upgrade":"x"}"#).unwrap());
    ensure_required_v26_fields(&mut m);
    let v = from_json(&m);
    assert_eq!(v["upgrade"], "x");
    assert_eq!(v["support_verbosity"], false);
    assert_eq!(v["experimental_supported_tools"], Value::Array(vec![]));
}
