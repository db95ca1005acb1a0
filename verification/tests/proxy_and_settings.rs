use codex_helper::canonical::short_sha256_hex;
use codex_helper::config::{AppConfig, ProviderConfig};
use codex_helper::json::Json;
use codex_helper::provider::default_app_config;
use codex_helper::proxy_flow::{
    chat_reply_kind, convert_chat_reply, extract_client_request_id, health_body,
    is_retryable_upstream_error, models_list_body, next_upstream_step, upstream_error_body,
    upstream_target, upstream_timeout_hint, ChatReplyKind, UpstreamFailure, UpstreamOutcome,
    UpstreamStep,
};
use codex_helper::request_log::{
    finalize_entry, format_time_label, PendingRequest, RequestLogEntry, RequestLogStore,
    UsageSnapshot, MAX_ENTRIES,
};
use codex_helper::config::validate_base_url;
use codex_helper::settings_api::{
    api_key_test_outcome, api_key_test_request, apply_custom_base_url, check_key_for_save,
    connected_message, mask_key_preview, resolve_key_for_request, saved_message,
    settings_bootstrap_body,
};
use codex_helper::tool_context::CodexToolContext;
use codex_helper::tray_menu::{
    health_after_test, health_check_plan, ConnectionStatus, HealthPlan,
};
use codex_helper::upstream_retry::MAX_UPSTREAM_ATTEMPTS;
use serde_json::Value;

fn to_json(v: &Value) -> Json {
    match v {
        Value::Null => Json::Null,
        Value::Bool(b) => Json::Bool(*b),
        Value::Number(n) => Json::Number(n.to_string()),
        Value::String(s) => Json::Str(s.clone()),
        Value::Array(a) => Json::Array(a.iter().map(to_json).collect()),
        Value::Object(o) => Json::Object(o.iter().map(|(k, v)| (k.clone(), to_json(v))).collect()),
    }
}

fn from_json(j: &Json) -> Value {
    match j {
        Json::Null => Value::Null,
        Json::Bool(b) => Value::Bool(*b),
        Json::Number(t) => serde_json::from_str(t).unwrap(),
        Json::Str(s) => Value::String(s.clone()),
        Json::Array(a) => Value::Array(a.iter().map(from_json).collect()),
        Json::Object(o) => {
            let mut m = serde_json::Map::new();
            for (k, v) in o {
                if !m.contains_key(k) {
                    m.insert(k.clone(), from_json(v));
                }
            }
            Value::Object(m)
        }
    }
}

fn header(name: &str, value: &str) -> (String, Option<String>) {
    (name.to_string(), Some(value.to_string()))
}

// ---------------------------------------------------------------------------
// Upstream exchange

#[test]
fn extract_client_request_id_reads_common_headers() {
    let headers = vec![header("x-request-id", "req-abc")];
    assert_eq!(extract_client_request_id(&headers), "req-abc");
}

#[test]
fn client_request_id_falls_back_through_header_names() {
    let headers = vec![
        header("x-request-id", "   "),
        ("x-correlation-id".to_string(), None),
        header("traceparent", " 00-abc-01 "),
    ];
    assert_eq!(extract_client_request_id(&headers), "00-abc-01");
    assert_eq!(extract_client_request_id(&Vec::new()), "");
}

#[test]
fn upstream_target_joins_base_and_path() {
    assert_eq!(
        upstream_target("https://api.deepseek.com/v1//", "/chat/completions"),
        "https://api.deepseek.com/v1/chat/completions"
    );
}

#[test]
fn rate_limited_reply_is_retried_after_retry_after() {
    let outcome = UpstreamOutcome::Reply { status: 429, retry_after: Some("3".to_string()) };
    match next_upstream_step(0, &outcome) {
        UpstreamStep::Retry { delay_ms } => assert_eq!(delay_ms, 3000),
        _ => panic!("a 429 is retried"),
    }
    let last = MAX_UPSTREAM_ATTEMPTS - 1;
    assert!(matches!(next_upstream_step(last, &outcome), UpstreamStep::Deliver));
    let ok = UpstreamOutcome::Reply { status: 200, retry_after: None };
    assert!(matches!(next_upstream_step(0, &ok), UpstreamStep::Deliver));
}

#[test]
fn connection_failures_back_off_then_give_up() {
    let timeout = UpstreamFailure { is_timeout: true, is_connect: false, is_request: false };
    assert!(is_retryable_upstream_error(&timeout));
    match next_upstream_step(1, &UpstreamOutcome::Failed(timeout)) {
        UpstreamStep::Retry { delay_ms } => assert_eq!(delay_ms, 1000),
        _ => panic!("a timeout is retried"),
    }
    assert!(matches!(
        next_upstream_step(MAX_UPSTREAM_ATTEMPTS - 1, &UpstreamOutcome::Failed(timeout)),
        UpstreamStep::GiveUp
    ));
    let other = UpstreamFailure { is_timeout: false, is_connect: false, is_request: false };
    assert!(matches!(next_upstream_step(0, &UpstreamOutcome::Failed(other)), UpstreamStep::GiveUp));
    assert_eq!(upstream_timeout_hint(false, &other), "");
    assert_eq!(
        upstream_timeout_hint(true, &timeout),
        "（流式读空闲超时：上游超过 300 秒未发送新数据）"
    );
}

#[test]
fn status_bodies_describe_the_proxy() {
    let app = default_app_config();
    let h = from_json(&health_body(&app));
    assert_eq!(h["status"], "ok");
    assert_eq!(h["active"], "deepseek");
    assert_eq!(h["provider"], "DeepSeek");
    let m = from_json(&models_list_body(&app).ok().unwrap());
    assert_eq!(m["object"], "list");
    assert_eq!(m["data"][0]["owned_by"], "deepseek");
    let mut broken = default_app_config();
    broken.active = "nobody".to_string();
    assert!(models_list_body(&broken).is_err());
    assert_eq!(from_json(&health_body(&broken))["provider"], "unknown");
    let e = from_json(&upstream_error_body("bad", "upstream_error"));
    assert_eq!(e["error"]["message"], "bad");
    assert_eq!(e["error"]["type"], "upstream_error");
}

#[test]
fn chat_replies_are_classified() {
    assert!(matches!(chat_reply_kind(500, "application/json"), ChatReplyKind::UpstreamError));
    assert!(matches!(chat_reply_kind(200, "Text/Event-Stream; charset=utf-8"), ChatReplyKind::Stream));
    assert!(matches!(chat_reply_kind(200, "application/json"), ChatReplyKind::Complete));
}

#[test]
fn unconvertible_chat_reply_becomes_failure_message() {
    let bytes = br#"{"error":{"message":"overloaded","type":"server_error"}}"#;
    let parsed: Result<Json, String> =
        Ok(to_json(&serde_json::from_slice::<Value>(bytes).unwrap()));
    match convert_chat_reply(bytes, &parsed, &CodexToolContext::empty()) {
        Err((message, ty)) => {
            assert_eq!(
                message,
                "Chat 响应转换 Responses 失败: No choices in chat response（上游返回: overloaded）"
            );
            assert_eq!(ty, "server_error");
        }
        Ok(_) => panic!("there are no choices"),
    }
    let parsed: Result<Json, String> = Err("expected value at line 1 column 1".to_string());
    match convert_chat_reply(b"", &parsed, &CodexToolContext::empty()) {
        Err((message, ty)) => {
            assert_eq!(
                message,
                "Chat 响应转换 Responses 失败: expected value at line 1 column 1（上游返回: 上游响应体为空）"
            );
            assert_eq!(ty, "upstream_error");
        }
        Ok(_) => panic!("the body is not JSON"),
    }
}

#[test]
fn convertible_chat_reply_becomes_responses_text() {
    let bytes = br#"{"id":"chatcmpl_9","created":1,"model":"m","choices":[{"message":{"role":"assistant","content":"hi"}}]}"#;
    let parsed: Result<Json, String> =
        Ok(to_json(&serde_json::from_slice::<Value>(bytes).unwrap()));
    let text = convert_chat_reply(bytes, &parsed, &CodexToolContext::empty()).ok().unwrap();
    let v: Value = serde_json::from_str(&text).unwrap();
    assert_eq!(v["output_text"], "hi");
    assert_eq!(v["id"], "resp_chatcmpl_9");
}

// ---------------------------------------------------------------------------
// Request log

fn entry(n: u64) -> RequestLogEntry {
    finalize_entry(
        PendingRequest {
            provider_id: "deepseek".to_string(),
            provider_name: "DeepSeek".to_string(),
            model: "deepseek-v4-flash".to_string(),
            path: "/chat/completions".to_string(),
            stream: false,
            status: 200,
        },
        Some(UsageSnapshot { input_tokens: n, output_tokens: 2 * n, total_tokens: 3 * n }),
        format!("id-{n}"),
        3_723_004,
        12,
        "—".to_string(),
    )
}

#[test]
fn finalized_entry_carries_usage_and_clock_label() {
    let e = entry(5);
    assert_eq!(e.input_tokens, 5);
    assert_eq!(e.total_tokens, 15);
    assert_eq!(e.time_label, "01:02:03.004");
    assert!(e.ok);
    let failed = finalize_entry(
        PendingRequest {
            provider_id: "kimi".to_string(),
            provider_name: "Kimi".to_string(),
            model: "kimi-k2.6".to_string(),
            path: "/responses".to_string(),
            stream: true,
            status: 502,
        },
        None,
        "x".to_string(),
        0,
        1,
        "—".to_string(),
    );
    assert!(!failed.ok);
    assert_eq!(failed.input_tokens, 0);
}

#[test]
fn log_keeps_only_the_most_recent_entries() {
    let mut store = RequestLogStore::new();
    for n in 0..(MAX_ENTRIES as u64 + 5) {
        store.push(entry(n));
    }
    assert_eq!(store.len(), MAX_ENTRIES);
    let listed = store.list();
    assert_eq!(listed[0].id, format!("id-{}", MAX_ENTRIES + 4));
    assert_eq!(listed.last().unwrap().id, "id-5");
    let summary = store.summary();
    assert_eq!(summary.count, MAX_ENTRIES);
    let expected: u64 = (5..(MAX_ENTRIES as u64 + 5)).sum();
    assert_eq!(summary.total_input_tokens, expected);
    assert_eq!(summary.total_output_tokens, 2 * expected);
    store.clear();
    assert_eq!(store.len(), 0);
}

#[test]
fn time_label_before_the_epoch_keeps_rust_arithmetic() {
    assert_eq!(format_time_label(-1), "00:00:00.4294967295");
    assert_eq!(format_time_label(-3_723_004), "-1:-2:-3.4294967292");
}

// ---------------------------------------------------------------------------
// Settings page and health checks

#[test]
fn key_previews_show_only_the_ends() {
    assert_eq!(mask_key_preview("sk-12345"), "***");
    assert_eq!(mask_key_preview("sk-1234567890abcd"), "sk-1...abcd");
}

#[test]
fn settings_page_lists_presets_with_key_state() {
    let app = AppConfig::default();
    let keys: Vec<Option<String>> = vec![
        Some("sk-1234567890abcd".to_string()),
        None,
        None,
        None,
        None,
        None,
        None,
    ];
    let body = from_json(&settings_bootstrap_body(&app, &keys));
    assert_eq!(body["active"], "deepseek");
    let rows = body["providers"].as_array().unwrap();
    assert_eq!(rows.len(), 7);
    assert_eq!(rows[5]["id"], "mimo");
    assert_eq!(rows[6]["id"], "custom");
    assert_eq!(rows[6]["is_custom"], true);
    assert_eq!(rows[0]["id"], "deepseek");
    assert_eq!(rows[0]["key_configured"], true);
    assert_eq!(rows[0]["key_preview"], "sk-1...abcd");
    assert_eq!(rows[0]["signup_url"], "https://platform.deepseek.com/");
    assert_eq!(rows[1]["key_configured"], false);
    assert!(rows[1]["key_preview"].is_null());
    assert_eq!(rows[0]["is_custom"], false);
}

#[test]
fn key_test_request_and_verdict() {
    let p = ProviderConfig::new(
        "deepseek",
        "DeepSeek",
        "https://api.deepseek.com/v1/",
        "DEEPSEEK_API_KEY",
        "deepseek-v4-flash",
        "deepseek-v4-flash",
        "responses",
    );
    assert_eq!(api_key_test_request(&p, "").err().unwrap(), "API Key 不能为空");
    let (url, body) = api_key_test_request(&p, "sk-x").ok().unwrap();
    assert_eq!(url, "https://api.deepseek.com/v1/chat/completions");
    let body = from_json(&body);
    assert_eq!(body["model"], "deepseek-v4-flash");
    assert_eq!(body["max_tokens"], 8);
    assert_eq!(body["messages"][0]["content"], "ping");
    let custom = ProviderConfig::new("custom", "Relay", " ", "RELAY_KEY", "m", "m", "chat");
    assert_eq!(api_key_test_request(&custom, "sk-x").err().unwrap(), "请填写 Base URL");
    assert!(api_key_test_outcome(200, "200 OK", "").is_ok());
    assert_eq!(
        api_key_test_outcome(401, "401 Unauthorized", "bad key").err().unwrap(),
        "连接失败 (401 Unauthorized)：bad key"
    );
}

#[test]
fn health_check_skips_without_key_and_records_results() {
    let app = default_app_config();
    match health_check_plan(&app, false) {
        HealthPlan::Report(h) => {
            assert_eq!(h.provider_id, "deepseek");
            assert!(matches!(h.connection, ConnectionStatus::Skipped(ref m) if m == "需先配置 Key"));
        }
        HealthPlan::TestKey => panic!("no key, no test"),
    }
    assert!(matches!(health_check_plan(&app, true), HealthPlan::TestKey));
    let h = health_after_test("deepseek", Err("连接失败".to_string()));
    assert!(matches!(h.connection, ConnectionStatus::Failed(ref m) if m == "连接失败"));
    assert!(matches!(health_after_test("deepseek", Ok(())).connection, ConnectionStatus::Connected));
}

#[test]
fn short_hash_is_the_digest_prefix_in_hex() {
    assert_eq!(short_sha256_hex(b"abc"), "ba7816bf8f01cfea");
    assert_eq!(short_sha256_hex(b""), "e3b0c44298fc1c14");
}

#[test]
fn base_url_is_trimmed_and_loses_trailing_slashes() {
    assert_eq!(validate_base_url("  https://relay.example.com/v1/ ").ok().unwrap(), "https://relay.example.com/v1");
    assert_eq!(validate_base_url("http://127.0.0.1:8080").ok().unwrap(), "http://127.0.0.1:8080");
    assert_eq!(
        validate_base_url("relay.example.com/v1").err().unwrap(),
        "Base URL 必须以 http:// 或 https:// 开头"
    );
}

#[test]
fn only_the_relay_provider_takes_a_base_url() {
    let mut deepseek = ProviderConfig::new(
        "deepseek", "DeepSeek", "https://api.deepseek.com", "DEEPSEEK_API_KEY", "m", "", "chat",
    );
    assert!(apply_custom_base_url(&mut deepseek, "https://other.example.com").is_ok());
    assert_eq!(deepseek.base_url, "https://api.deepseek.com");

    let mut relay = ProviderConfig::new("custom", "中转站", "", "CUSTOM_API_KEY", "m", "", "chat");
    assert_eq!(apply_custom_base_url(&mut relay, "").err().unwrap(), "请填写 Base URL");
    assert_eq!(
        apply_custom_base_url(&mut relay, "ftp://x").err().unwrap(),
        "Base URL 必须以 http:// 或 https:// 开头"
    );
    assert_eq!(relay.base_url, "");
    assert!(apply_custom_base_url(&mut relay, "https://relay.example.com/v1/").is_ok());
    assert_eq!(relay.base_url, "https://relay.example.com/v1");
    assert!(apply_custom_base_url(&mut relay, "").is_ok());
    assert_eq!(relay.base_url, "https://relay.example.com/v1");
}

#[test]
fn saving_needs_a_typed_or_stored_key() {
    assert!(check_key_for_save("sk-1", false).is_ok());
    assert!(check_key_for_save("", true).is_ok());
    assert_eq!(check_key_for_save("", false).err().unwrap(), "API Key 不能为空");
    assert_eq!(saved_message("DeepSeek"), "已保存 DeepSeek 配置。请完全退出并重新打开 Codex Desktop。");
    assert_eq!(connected_message("DeepSeek"), "DeepSeek 连接成功！");
}

#[test]
fn a_typed_key_wins_over_the_stored_one() {
    assert_eq!(resolve_key_for_request("sk-typed", Ok("sk-stored".to_string())).ok().unwrap(), "sk-typed");
    assert_eq!(resolve_key_for_request("", Ok("sk-stored".to_string())).ok().unwrap(), "sk-stored");
    assert_eq!(resolve_key_for_request("", Err("missing".to_string())).err().unwrap(), "missing");
}
