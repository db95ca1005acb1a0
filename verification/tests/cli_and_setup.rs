use codex_helper::codex_setup::{backup_stamp, backups_to_prune};
use codex_helper::settings_api::needs_first_run_setup;
use codex_helper::text::trim;
use codex_helper::cli_report::{
    doctor_report, preset_list_lines, status_report, DoctorFacts, Platform,
};
use codex_helper::codex_setup::{
    bearer_token_for_codex, codex_auth_json, codex_config_uses_helper, pin_default_proxy,
};
use codex_helper::env_sync::{codex_dotenv_content, validate_windows_env_entry};
use codex_helper::json::Json;
use codex_helper::provider::default_app_config;

fn healthy_facts() -> DoctorFacts {
    DoctorFacts {
        helper_dir_exists: true,
        codex_config_exists: true,
        api_key: Some("sk-1234567890abcd".to_string()),
        platform: Platform::Other,
        windows_env_set: false,
        dotenv_exists: true,
        uses_helper: true,
        custom_base_url: Some("http://127.0.0.1:25543/v1/".to_string()),
        custom_sections: Some(1),
        js_repl: Some(true),
        node_repl_configured: true,
        active_key_found: true,
        proxy_running: true,
    }
}

#[test]
fn doctor_reports_all_clear() {
    let app = default_app_config();
    let report = doctor_report(&healthy_facts(), &app).ok().unwrap();
    assert!(report.ok);
    assert_eq!(report.lines[0], "Codex Helper 诊断");
    assert!(report.lines.contains(&"✅ API Key 已配置 (sk-1...abcd)".to_string()));
    assert!(report.lines.contains(&"✅ ~/.codex/.env 已生成".to_string()));
    assert!(report
        .lines
        .contains(&"✅ Codex config.toml 代理地址与 config.json 一致 (http://127.0.0.1:25543/v1/)".to_string()));
    assert!(report.lines.contains(&"✅ 当前模型 Key 已配置 (DEEPSEEK_API_KEY)".to_string()));
    assert_eq!(report.lines.last().unwrap(), "一切正常，可以运行 codex 了。");
}

#[test]
fn doctor_reports_problems() {
    let app = default_app_config();
    let mut facts = healthy_facts();
    facts.platform = Platform::Windows;
    facts.custom_base_url = Some("http://127.0.0.1:9999/v1".to_string());
    facts.custom_sections = Some(3);
    facts.js_repl = Some(false);
    facts.proxy_running = false;
    let report = doctor_report(&facts, &app).ok().unwrap();
    assert!(!report.ok);
    let text = report.lines.join("\n");
    assert!(text.contains("⚠️  Windows 用户环境变量 OPENAI_API_KEY 未设置"));
    assert!(text.contains("❌ Codex config.toml 代理地址不一致: http://127.0.0.1:9999/v1 ≠ http://127.0.0.1:25543/v1"));
    assert!(text.contains("   期望端口 25543，"));
    assert!(text.contains("⚠️  config.toml 中有 3 个 [model_providers.custom] 块（可能有残留）"));
    assert!(text.contains("js_repl = false"));
    assert!(text.contains("   默认代理地址: http://127.0.0.1:25543/v1 （健康检查 /health）"));
    assert_eq!(report.lines.last().unwrap(), "发现一些问题，请按上方提示修复。");
}

#[test]
fn doctor_stops_on_unknown_active_provider() {
    let mut app = default_app_config();
    app.active = "nobody".to_string();
    match doctor_report(&healthy_facts(), &app) {
        Err((lines, e)) => {
            assert!(!lines.is_empty());
            assert!(e.message().contains("nobody"));
        }
        Ok(_) => panic!("the active provider is unknown"),
    }
}

#[test]
fn status_shows_active_provider_and_codex_state() {
    let app = default_app_config();
    let lines = status_report(&app, true, true, Some("http://127.0.0.1:25543/v1")).ok().unwrap();
    assert_eq!(lines[2], "当前模型:   deepseek (DeepSeek)");
    assert_eq!(lines[4], "代理地址:   http://127.0.0.1:25543/v1");
    assert_eq!(lines[6], "API Key:    已配置 (DEEPSEEK_API_KEY)");
    assert_eq!(lines[7], "Codex 配置: 已指向本地代理（端口一致）");
    let lines = status_report(&app, false, true, None).ok().unwrap();
    assert_eq!(lines[7], "Codex 配置: 已指向本地代理（⚠ 端口不一致，请重新同步）");
    let lines = status_report(&app, false, false, None).ok().unwrap();
    assert_eq!(lines[7], "Codex 配置: 未配置（运行 codex-helper init）");
}

#[test]
fn preset_list_marks_the_active_preset() {
    let app = default_app_config();
    let lines = preset_list_lines(&app);
    assert_eq!(lines[0], "可用模型预设:");
    assert_eq!(lines.len(), 8);
    assert!(lines[7].starts_with("    custom "));
    let deepseek = app.provider("deepseek").unwrap();
    let expected = format!("  ✓ {:<10} {:<12} {}", "deepseek", deepseek.default_model, deepseek.name);
    assert_eq!(lines[1], expected);
    assert!(lines[2].starts_with("    qwen "));
}

#[test]
fn codex_credentials_prefer_the_provider_key() {
    assert_eq!(bearer_token_for_codex(Some("k1".to_string()), Some("k2".to_string())), "k1");
    assert_eq!(bearer_token_for_codex(None, Some("k2".to_string())), "k2");
    assert_eq!(bearer_token_for_codex(None, None), "local-proxy-placeholder");
    match codex_auth_json("tok") {
        Json::Object(e) => {
            assert_eq!(e[0].0, "OPENAI_API_KEY");
            assert!(matches!(&e[0].1, Json::Str(s) if s == "tok"));
            assert!(matches!(&e[1].1, Json::Str(s) if s == "apikey"));
        }
        _ => panic!("auth is an object"),
    }
}

#[test]
fn helper_use_is_detected_from_url_or_file() {
    assert!(codex_config_uses_helper(Some("http://127.0.0.1:25543/v1"), None));
    assert!(codex_config_uses_helper(None, Some("[model_providers.codex-helper]")));
    assert!(!codex_config_uses_helper(Some("https://api.openai.com/v1"), Some("model = \"x\"")));
}

#[test]
fn proxy_address_is_pinned_to_the_default() {
    let mut app = default_app_config();
    app.proxy.host = "0.0.0.0".to_string();
    app.proxy.port = 1;
    pin_default_proxy(&mut app);
    assert_eq!(app.proxy.host, "127.0.0.1");
    assert_eq!(app.proxy.port, 25543);
}

#[test]
fn dotenv_and_env_errors_name_the_key() {
    assert_eq!(
        codex_dotenv_content("sk-x"),
        "# 由 codex-helper 自动生成，供 Codex Desktop / CLI 读取\nOPENAI_API_KEY=sk-x\n"
    );
    let huge = "x".repeat(32_768);
    let err = validate_windows_env_entry("OPENAI_API_KEY", &huge).err().unwrap();
    assert_eq!(
        err.message("OPENAI_API_KEY"),
        "环境变量 OPENAI_API_KEY 值过长（32768 字符），Windows 上限为 32767"
    );
}

#[test]
fn windows_env_limit_counts_utf16_code_units() {
    let cjk = "中".repeat(20_000);
    assert!(validate_windows_env_entry("OPENAI_API_KEY", &cjk).is_ok());
    let at_limit = "x".repeat(32_767);
    assert!(validate_windows_env_entry("OPENAI_API_KEY", &at_limit).is_ok());
    assert!(validate_windows_env_entry("OPENAI_API_KEY", "sk-%FOO%-bar").is_ok());
    // Characters outside the Basic Multilingual Plane take two units each.
    let emoji = "😀".repeat(16_384);
    let err = validate_windows_env_entry("OPENAI_API_KEY", &emoji).err().unwrap();
    assert_eq!(
        err.message("OPENAI_API_KEY"),
        "环境变量 OPENAI_API_KEY 值过长（32768 字符），Windows 上限为 32767"
    );
    let emoji_ok = "😀".repeat(16_383);
    assert!(validate_windows_env_entry("OPENAI_API_KEY", &emoji_ok).is_ok());
}

#[test]
fn backup_names_carry_their_timestamp() {
    assert_eq!(backup_stamp("config.toml.1718000000.bak"), Some(1718000000));
    assert_eq!(backup_stamp("config.toml.bak"), None);
    assert_eq!(backup_stamp("config.toml.abc.bak"), None);
    assert_eq!(backup_stamp("other.toml.1718000000.bak"), None);
}

#[test]
fn only_the_ten_newest_backups_stay() {
    let few: Vec<u64> = (1..=10).collect();
    assert!(backups_to_prune(&few).is_empty());
    // Twelve backups out of order: the two oldest (stamps 1 and 2) go.
    let stamps: Vec<u64> = vec![5, 1, 12, 7, 2, 9, 3, 11, 4, 10, 6, 8];
    assert_eq!(backups_to_prune(&stamps), vec![1, 4]);
    // Equal stamps: the later one in the list counts as newer.
    let same: Vec<u64> = vec![7; 11];
    assert_eq!(backups_to_prune(&same), vec![0]);
}

#[test]
fn first_run_setup_opens_without_a_key_or_settings() {
    let app = default_app_config();
    assert!(needs_first_run_setup(None, true));
    assert!(needs_first_run_setup(Some(&app), false));
    assert!(!needs_first_run_setup(Some(&app), true));
    let mut unknown = default_app_config();
    unknown.active = "nope".to_string();
    assert!(needs_first_run_setup(Some(&unknown), true));
}

#[test]
fn trimming_follows_unicode_white_space() {
    assert_eq!(trim("\u{3000} Max \u{85}"), "Max");
    assert_eq!(trim("\u{2009}120\u{a0}"), "120");
    assert_eq!(trim("\u{200b}x"), "\u{200b}x");
}
