use codex_helper::chat_to_responses::{
    chat_completion_to_response_with_context, chat_json_to_responses_json,
    response_status_from_finish_reason, split_leading_think_block, ChatResponseError,
};
use codex_helper::codex_setup::{
    bundled_plugin_path, count_custom_provider_sections, ensure_desktop_automation_features,
    is_local_helper_proxy_url, normalize_proxy_url, read_codex_custom_base_url,
    render_codex_config_table, scrub_stale_helper_provider_keys, strip_quotes, CodexConfigError,
    DEFAULT_HOST, PROVIDER_ID,
};
use codex_helper::config::DEFAULT_PORT;
use codex_helper::env_sync::{parse_reg_query_value, validate_windows_env_entry, EnvEntryError};
use codex_helper::json::Json;
use codex_helper::provider::default_app_config;
use codex_helper::request_log::{
    extract_model_from_body, format_time_label, latest_usage, parse_usage_from_json,
    sse_data_payloads,
};
use codex_helper::responses_to_chat::convert_responses_to_chat;
use codex_helper::responses_failed::{
    extract_upstream_error_message, responses_failed_json, responses_failed_sse,
};
use codex_helper::tool_context::{build_codex_tool_context_from_request, CodexToolContext};
use codex_helper::tray_menu::{
    build_menu, menu_action, menu_key_line, switch_provider_model, tooltip_text,
    truncate_menu_text, ConnectionStatus, MenuAction, MenuEntry, ProviderHealth, SwitchError,
    TrayAction, TrayEvent, TrayWindows,
};
use codex_helper::upstream_retry::{
    is_retryable_upstream_status, retry_backoff, retry_delay_from_retry_after, retry_delay_ms,
    MAX_RETRY_AFTER_SECS,
};
use serde_json::Value;
use std::path::PathBuf;
use std::time::Duration;

fn to_json(v: &Value) -> Json {
    match v {
        Value::Null => Json::Null,
        Value::Bool(b) => Json::Bool(*b),
        Value::Number(n) => Json::Number(n.to_string()),
        Value::String(s) => Json::Str(s.clone()),
        Value::Array(a) => Json::Array(a.iter().map(to_json).collect()),
        Value::Object(o) => Json::Object(o.iter().map(|(k, v)| (k.clone(), to_json(v))).collect()),
    }
}

fn from_json(j: &Json) -> Value {
    match j {
        Json::Null => Value::Null,
        Json::Bool(b) => Value::Bool(*b),
        Json::Number(t) => serde_json::from_str(t).unwrap(),
        Json::Str(s) => Value::String(s.clone()),
        Json::Array(a) => Value::Array(a.iter().map(from_json).collect()),
        Json::Object(o) => {
            let mut m = serde_json::Map::new();
            for (k, v) in o {
                if !m.contains_key(k) {
                    m.insert(k.clone(), from_json(v));
                }
            }
            Value::Object(m)
        }
    }
}

fn parse_json(text: &str) -> Json {
    to_json(&serde_json::from_str::<Value>(text).unwrap())
}

fn parse_bytes(bytes: &[u8]) -> Option<Json> {
    serde_json::from_slice::<Value>(bytes).ok().map(|v| to_json(&v))
}

fn usage_of_stream(bytes: &[u8]) -> Option<codex_helper::request_log::UsageSnapshot> {
    let parsed: Vec<Option<Json>> = sse_data_payloads(bytes).iter().map(|p| parse_bytes(p)).collect();
    latest_usage(&parsed)
}

fn get<'a>(j: &'a Json, key: &str) -> &'a Json {
    j.get(key).expect("member present")
}

// ---------------------------------------------------------------------------
// Chat completion to Responses

#[test]
fn converts_reasoning_and_text_response() {
    let chat = parse_json(
        r#"{
            "id": "chatcmpl_2",
            "created": 123,
            "model": "deepseek-chat",
            "choices": [{
                "finish_reason": "stop",
                "message": {
                    "role": "assistant",
                    "reasoning_content": "Need context.",
                    "content": "Done"
                }
            }]
        }"#,
    );
    let response = chat_completion_to_response_with_context(&chat, &CodexToolContext::empty())
        .ok()
        .unwrap();
    let response = from_json(&response);
    let output = response["output"].as_array().unwrap();
    assert_eq!(output[0]["type"], "reasoning");
    assert_eq!(output[1]["type"], "message");
    assert_eq!(response["output_text"], "Done");
}

#[test]
fn converts_tool_call_response_with_custom_tool_context() {
    let request = parse_json(
        r#"{"tools": [{"type": "custom", "name": "apply_patch", "description": "patch"}]}"#,
    );
    let context = build_codex_tool_context_from_request(&request);
    let chat = parse_json(
        r#"{
            "id": "chatcmpl_1",
            "created": 123,
            "model": "gpt-5.4",
            "choices": [{
                "finish_reason": "tool_calls",
                "message": {
                    "role": "assistant",
                    "content": null,
                    "tool_calls": [{
                        "id": "call_patch",
                        "type": "function",
                        "function": {
                            "name": "apply_patch",
                            "arguments": "{\"input\":\"*** Begin Patch\"}"
                        }
                    }]
                }
            }],
            "usage": {"prompt_tokens": 1, "completion_tokens": 2, "total_tokens": 3}
        }"#,
    );

    let response = chat_completion_to_response_with_context(&chat, &context).ok().unwrap();
    let response = from_json(&response);
    let output = response["output"].as_array().unwrap();
    assert_eq!(output[0]["type"], "custom_tool_call");
    assert_eq!(output[0]["name"], "apply_patch");
    assert_eq!(output[0]["input"], "*** Begin Patch");
}

#[test]
fn custom_tool_call_keeps_raw_arguments_that_are_not_json() {
    let request = parse_json(r#"{"tools": [{"type": "custom", "name": "apply_patch"}]}"#);
    let context = build_codex_tool_context_from_request(&request);
    assert!(context.is_custom_tool_chat_name("apply_patch"));
    assert!(!context.is_custom_tool_chat_name("shell"));
    let chat = parse_json(
        r#"{"id":"c","choices":[{"finish_reason":"tool_calls","message":{"role":"assistant",
            "tool_calls":[
              {"id":"a","type":"function","function":{"name":"apply_patch","arguments":"*** Begin Patch"}},
              {"id":"b","type":"function","function":{"name":"shell","arguments":"{\"cmd\":\"ls\"}"}}
            ]}}]}"#,
    );
    let response = from_json(&chat_completion_to_response_with_context(&chat, &context).ok().unwrap());
    let output = response["output"].as_array().unwrap();
    assert_eq!(output[0]["type"], "custom_tool_call");
    assert_eq!(output[0]["input"], "*** Begin Patch");
    assert_eq!(output[0]["call_id"], "a");
    assert_eq!(output[1]["type"], "function_call");
    assert_eq!(output[1]["arguments"], "{\"cmd\":\"ls\"}");
    assert_eq!(output[1]["id"], "fc_b");
}

#[test]
fn default_tool_context_routes_every_call_as_function() {
    let context = CodexToolContext::default();
    assert!(!context.is_custom_tool_chat_name("apply_patch"));
    assert!(context.chat_tools().is_empty());
}

#[test]
fn wraps_chat_response_as_responses_json() {
    let body = parse_json(
        r#"{"id":"chatcmpl_1","object":"chat.completion","created":123,"model":"deepseek-chat","choices":[{"message":{"role":"assistant","content":"pong"}}],"usage":{"prompt_tokens":1,"completion_tokens":1,"total_tokens":2}}"#,
    );
    let out = chat_json_to_responses_json(&body, &CodexToolContext::empty()).ok().unwrap();
    let v: Value = serde_json::from_str(&out).unwrap();
    assert_eq!(v["object"], "response");
    assert_eq!(v["status"], "completed");
    assert_eq!(v["output_text"], "pong");
    assert_eq!(v["output"][0]["content"][0]["type"], "output_text");
}

#[test]
fn chat_response_without_choices_is_refused() {
    let body = parse_json(r#"{"id":"chatcmpl_1","created":1,"model":"m"}"#);
    let r = chat_completion_to_response_with_context(&body, &CodexToolContext::empty());
    assert!(matches!(r, Err(ChatResponseError::NoChoices)));
    let body = parse_json(r#"{"id":"chatcmpl_1","created":1,"model":"m","choices":[]}"#);
    let r = chat_completion_to_response_with_context(&body, &CodexToolContext::empty());
    assert!(matches!(r, Err(ChatResponseError::EmptyChoices)));
    let body = parse_json(r#"{"id":"chatcmpl_1","created":1,"model":"m","choices":[{"finish_reason":"stop"}]}"#);
    let r = chat_completion_to_response_with_context(&body, &CodexToolContext::empty());
    assert!(matches!(r, Err(ChatResponseError::NoMessage)));
}

#[test]
fn chat_response_ids_and_usage_are_carried_over() {
    let body = parse_json(
        r#"{"id":"chatcmpl_77","created":9,"model":"m","choices":[{"finish_reason":"length","message":{"role":"assistant","content":"part"}}],"usage":{"prompt_tokens":3,"completion_tokens":4}}"#,
    );
    let v = from_json(
        &chat_completion_to_response_with_context(&body, &CodexToolContext::empty()).ok().unwrap(),
    );
    assert_eq!(v["id"], "resp_chatcmpl_77");
    assert_eq!(v["status"], "incomplete");
    assert_eq!(v["usage"]["input_tokens"], 3);
    assert_eq!(v["usage"]["output_tokens"], 4);
    assert_eq!(v["usage"]["total_tokens"], 7);
}

#[test]
fn tool_call_response_becomes_function_call_item() {
    let body = parse_json(
        r#"{"id":"chatcmpl_3","created":1,"model":"m","choices":[{"finish_reason":"tool_calls","message":{"role":"assistant","content":null,"tool_calls":[{"id":"call_1","type":"function","function":{"name":"read_file","arguments":"{\"path\":\"a\"}"}}]}}]}"#,
    );
    let v = from_json(
        &chat_completion_to_response_with_context(&body, &CodexToolContext::empty()).ok().unwrap(),
    );
    let output = v["output"].as_array().unwrap();
    assert_eq!(output[0]["type"], "function_call");
    assert_eq!(output[0]["name"], "read_file");
    assert_eq!(output[0]["call_id"], "call_1");
}

#[test]
fn finish_reasons_map_to_statuses() {
    assert_eq!(response_status_from_finish_reason(Some("stop")), "completed");
    assert_eq!(response_status_from_finish_reason(Some("length")), "incomplete");
    assert_eq!(response_status_from_finish_reason(None), "completed");
}

#[test]
fn leading_think_block_is_split_off() {
    let (thinking, rest) = split_leading_think_block("  <think> plan </think>\n answer ").unwrap();
    assert_eq!(thinking, "plan");
    assert_eq!(rest, "answer");
    assert!(split_leading_think_block("answer <think>x</think>").is_none());
    assert!(split_leading_think_block("<think>never closed").is_none());
}

// ---------------------------------------------------------------------------
// Failed responses

#[test]
fn failed_json_uses_response_object_shape() {
    let value: Value = serde_json::from_str(&responses_failed_json(
        "quota exceeded",
        Some("rate_limit_error"),
        Some("deepseek-v4-flash"),
        1_700_000_000,
    ))
    .unwrap();
    assert_eq!(value["status"], "failed");
    assert_eq!(value["object"], "response");
    assert_eq!(value["error"]["message"], "quota exceeded");
    assert_eq!(value["error"]["type"], "rate_limit_error");
    assert_eq!(value["model"], "deepseek-v4-flash");
}

#[test]
fn failed_sse_emits_response_failed_event() {
    let sse = responses_failed_sse("boom", Some("upstream_error"), None, 1_700_000_000);
    assert!(sse.contains("event: response.failed"));
    assert!(sse.contains("\"status\":\"failed\""));
    assert!(sse.contains("boom"));
}

#[test]
fn failed_json_keeps_creation_time_and_defaults() {
    let value: Value =
        serde_json::from_str(&responses_failed_json("x", None, None, 42)).unwrap();
    assert_eq!(value["created_at"], 42);
    assert!(value["error"].get("type").is_none());
    assert_eq!(value["model"], "");
}

#[test]
fn extracts_chat_style_upstream_error() {
    let bytes = br#"{"error":{"message":"invalid key","type":"authentication_error"}}"#;
    let parsed = parse_bytes(bytes);
    let (message, error_type) = extract_upstream_error_message(bytes, parsed.as_ref());
    assert_eq!(message, "invalid key");
    assert_eq!(error_type.as_deref(), Some("authentication_error"));
}

#[test]
fn upstream_error_of_empty_and_html_bodies() {
    let (message, error_type) = extract_upstream_error_message(b"", None);
    assert_eq!(message, "上游响应体为空");
    assert_eq!(error_type.as_deref(), Some("upstream_error"));
    let (message, _) = extract_upstream_error_message(b"<html><body>404</body></html>", None);
    assert!(message.starts_with("上游返回了 HTML 页面"));
    let (message, error_type) = extract_upstream_error_message(b"plain failure", None);
    assert_eq!(message, "plain failure");
    assert_eq!(error_type.as_deref(), Some("upstream_error"));
}

#[test]
fn upstream_error_with_top_level_message() {
    let bytes = br#"{"message":"slow down","type":"rate_limit"}"#;
    let parsed = parse_bytes(bytes);
    let (message, error_type) = extract_upstream_error_message(bytes, parsed.as_ref());
    assert_eq!(message, "slow down");
    assert_eq!(error_type.as_deref(), Some("rate_limit"));
}

// ---------------------------------------------------------------------------
// Upstream retries

#[test]
fn retryable_statuses_include_rate_limit_and_gateway_errors() {
    assert!(is_retryable_upstream_status(429));
    assert!(is_retryable_upstream_status(502));
    assert!(is_retryable_upstream_status(503));
    assert!(!is_retryable_upstream_status(400));
}

#[test]
fn retry_after_header_caps_delay() {
    let delay = retry_delay_from_retry_after(Some("120"), 0);
    assert_eq!(delay, Duration::from_secs(30));
}

#[test]
fn retry_backoff_grows_exponentially() {
    assert_eq!(retry_backoff(0), Duration::from_millis(500));
    assert_eq!(retry_backoff(1), Duration::from_millis(1000));
    assert_eq!(retry_backoff(2), Duration::from_millis(2000));
}

#[test]
fn retry_after_below_cap_is_used_and_bad_values_fall_back() {
    assert_eq!(retry_delay_ms(Some("2"), 0), 2000);
    assert_eq!(retry_delay_ms(Some(" 7 "), 3), 7000);
    assert_eq!(retry_delay_ms(Some("soon"), 1), 1000);
    assert_eq!(retry_delay_ms(None, 2), 2000);
    assert_eq!(retry_delay_ms(Some("120"), 0), MAX_RETRY_AFTER_SECS * 1000);
}

// ---------------------------------------------------------------------------
// Request log

#[test]
fn parses_usage_from_sse_chunk() {
    let chunk = br#"data: {"choices":[],"usage":{"prompt_tokens":10,"completion_tokens":5,"total_tokens":15}}

"#;
    let usage = usage_of_stream(chunk).unwrap();
    assert_eq!(usage.input_tokens, 10);
    assert_eq!(usage.output_tokens, 5);
}

#[test]
fn sse_payloads_skip_done_and_keep_the_latest_usage() {
    let chunk = b"data: {\"usage\":{\"input_tokens\":1,\"output_tokens\":2}}\n\ndata:{\"usage\":{\"prompt_tokens\":3,\"completion_tokens\":4}}\ndata: [DONE]\n";
    let payloads = sse_data_payloads(chunk);
    assert_eq!(payloads.len(), 2);
    let usage = usage_of_stream(chunk).unwrap();
    assert_eq!(usage.input_tokens, 3);
    assert_eq!(usage.output_tokens, 4);
    assert_eq!(usage.total_tokens, 7);
}

#[test]
fn zero_usage_is_no_usage() {
    let body = parse_json(r#"{"usage":{"prompt_tokens":0,"completion_tokens":0}}"#);
    assert!(parse_usage_from_json(&body).is_none());
    let body = parse_json(r#"{"usage":{"input_tokens":2,"output_tokens":3,"total_tokens":9}}"#);
    let u = parse_usage_from_json(&body).unwrap();
    assert_eq!((u.input_tokens, u.output_tokens, u.total_tokens), (2, 3, 9));
}

#[test]
fn model_of_request_body_or_fallback() {
    let body = parse_json(r#"{"model":"gpt-5.4"}"#);
    assert_eq!(extract_model_from_body(Some(&body), "fallback"), "gpt-5.4");
    let body = parse_json(r#"{"model":""}"#);
    assert_eq!(extract_model_from_body(Some(&body), "fallback"), "fallback");
    assert_eq!(extract_model_from_body(None, "fallback"), "fallback");
}

#[test]
fn time_label_is_utc_clock_time() {
    assert_eq!(format_time_label(0), "00:00:00.000");
    assert_eq!(format_time_label(3_723_004), "01:02:03.004");
    assert_eq!(format_time_label(86_400_000 + 59_120), "00:00:59.120");
}

// ---------------------------------------------------------------------------
// Codex desktop setup

#[test]
fn bundled_plugin_relative_to_codex_cli() {
    let codex = PathBuf::from(r"C:\Users\me\.codex\app\resources\codex.exe");
    let source = bundled_plugin_path(&codex);
    assert!(source.ends_with(r"plugins\openai-bundled\plugins\computer-use")
        || source.ends_with("plugins/openai-bundled/plugins/computer-use"));
}

#[test]
fn strip_quotes_trims_wrapping_quotes() {
    assert_eq!(strip_quotes("'C:\\codex.exe'"), r"C:\codex.exe");
}

#[test]
fn normalize_proxy_url_strips_trailing_slash() {
    let with_slash = format!("http://{}:{}/v1/", DEFAULT_HOST, DEFAULT_PORT);
    let without_slash = format!("http://{}:{}/v1", DEFAULT_HOST, DEFAULT_PORT);
    assert_eq!(normalize_proxy_url(&with_slash), without_slash);
    assert_eq!(normalize_proxy_url("http://127.0.0.1:25543/v1/"), without_slash);
}

#[test]
fn ensure_js_repl_enabled_overrides_false_and_preserves_other_flags() {
    let mut merged = parse_json(r#"{"features":{"js_repl":false,"plugins":true}}"#);
    ensure_desktop_automation_features(&mut merged);
    let features = merged.get("features").expect("features table");
    assert_eq!(features.get("js_repl").and_then(|value| value.as_bool()), Some(true));
    assert_eq!(features.get("plugins").and_then(|value| value.as_bool()), Some(true));
    assert_eq!(features.get("apps").and_then(|value| value.as_bool()), Some(true));
}

#[test]
fn scrub_preserves_unrelated_providers() {
    let mut providers = Json::Object(vec![
        ("openai".to_string(), Json::Str("keep".to_string())),
        ("deepseek".to_string(), Json::Str("remove".to_string())),
        (PROVIDER_ID.to_string(), Json::Str("remove".to_string())),
    ]);
    scrub_stale_helper_provider_keys(&mut providers);
    assert!(providers.get("openai").is_some());
    assert!(providers.get("deepseek").is_none());
    assert!(providers.get(PROVIDER_ID).is_none());
}

#[test]
fn local_helper_proxy_urls_are_recognised() {
    assert!(is_local_helper_proxy_url("http://127.0.0.1:25543/v1/"));
    assert!(!is_local_helper_proxy_url("http://localhost:9000/v1"));
    assert!(!is_local_helper_proxy_url("https://api.deepseek.com/v1"));
}

#[test]
fn rendered_config_points_codex_at_the_proxy() {
    let app = default_app_config();
    let provider = app.provider("deepseek").unwrap().clone_provider();
    let existing = parse_json(
        r#"{"sandbox_mode":"danger","model_providers":{"codex-helper":{"x":1},"openai":{"y":2}},"windows":{"sandbox":"x"}}"#,
    );
    let table = render_codex_config_table(existing, &app, &provider, "/tmp/catalog.json", "token");
    let v = from_json(&table);
    assert_eq!(v["model_provider"], "custom");
    assert_eq!(v["model"], provider.default_model.as_str());
    assert_eq!(v["model_catalog_json"], "/tmp/catalog.json");
    assert_eq!(v["model_reasoning_effort"], "medium");
    assert!(v.get("sandbox_mode").is_none());
    assert!(v.get("windows").is_none());
    assert_eq!(v["features"]["js_repl"], true);
    assert_eq!(v["model_providers"]["custom"]["base_url"], "http://127.0.0.1:25543/v1");
    assert_eq!(v["model_providers"]["custom"]["wire_api"], "responses");
    assert!(v["model_providers"].get("codex-helper").is_none());
    assert_eq!(v["model_providers"]["openai"]["y"], 2);
    assert_eq!(read_codex_custom_base_url(&table).ok().unwrap(), "http://127.0.0.1:25543/v1");
}

#[test]
fn missing_custom_provider_is_reported() {
    let table = parse_json(r#"{"model_providers":{"openai":{}}}"#);
    assert!(matches!(read_codex_custom_base_url(&table), Err(CodexConfigError::MissingCustomProvider)));
    let table = parse_json(r#"{"model_providers":{"custom":{"name":"x"}}}"#);
    assert!(matches!(read_codex_custom_base_url(&table), Err(CodexConfigError::MissingBaseUrl)));
}

#[test]
fn counts_custom_provider_sections() {
    let text = "[model_providers.custom]\nname = \"a\"\n\n[model_providers.custom]\nname = \"b\"\n";
    assert_eq!(count_custom_provider_sections(text), 2);
    assert_eq!(count_custom_provider_sections("model = \"x\"\n"), 0);
}

// ---------------------------------------------------------------------------
// Windows user environment

#[test]
fn validate_windows_env_entry_rejects_oversized_values() {
    let huge = "x".repeat(32_768);
    assert!(validate_windows_env_entry("OPENAI_API_KEY", &huge).is_err());
}

#[test]
fn validate_windows_env_entry_accepts_percent_in_value() {
    assert!(validate_windows_env_entry("OPENAI_API_KEY", "sk-%FOO%-bar").is_ok());
}

#[test]
fn parse_reg_query_value_reads_reg_sz_payload() {
    let text = "HKEY_CURRENT_USER\\Environment\r\n    OPENAI_API_KEY    REG_SZ    sk-%FOO% token\r\n";
    assert_eq!(
        parse_reg_query_value(text, "OPENAI_API_KEY").as_deref(),
        Some("sk-%FOO% token")
    );
}

#[test]
fn env_entry_errors_for_bad_names() {
    assert!(matches!(validate_windows_env_entry("", "v"), Err(EnvEntryError::EmptyKey)));
    assert!(validate_windows_env_entry("A=B", "v").is_err());
    assert!(parse_reg_query_value("nothing here", "OPENAI_API_KEY").is_none());
}

// ---------------------------------------------------------------------------
// Tray

#[test]
fn menu_clicks_map_to_actions() {
    assert!(matches!(menu_action("quit"), MenuAction::Quit));
    assert!(matches!(menu_action("settings"), MenuAction::OpenSettings));
    assert!(matches!(menu_action("nothing"), MenuAction::Ignore));
    match menu_action("use:qwen:qwen3.7-plus") {
        MenuAction::UseModel(p, m) => {
            assert_eq!(p, "qwen");
            assert_eq!(m, "qwen3.7-plus");
        }
        _ => panic!("expected a model switch"),
    }
    match menu_action("use:kimi") {
        MenuAction::UseProvider(p) => assert_eq!(p, "kimi"),
        _ => panic!("expected a provider switch"),
    }
}

#[test]
fn tooltip_reports_key_and_connection_state() {
    let app = default_app_config();
    let health = ProviderHealth::default();
    assert_eq!(tooltip_text(&app, &health, false), "Codex Helper — DeepSeek（需设置 API Key）");
    assert_eq!(tooltip_text(&app, &health, true), "Codex Helper — DeepSeek（运行中）");
    let failed = ProviderHealth {
        provider_id: "deepseek".to_string(),
        connection: ConnectionStatus::Failed("timeout".to_string()),
    };
    assert_eq!(tooltip_text(&app, &failed, true), "Codex Helper — DeepSeek（连接失败）");
    assert_eq!(menu_key_line(false), "× API Key：未配置");
}

#[test]
fn menu_text_is_truncated_with_ellipsis() {
    assert_eq!(truncate_menu_text("abcdef", 4), "abcd…");
    assert_eq!(truncate_menu_text("abc", 4), "abc");
}

#[test]
fn menu_has_entries_and_ends_with_quit() {
    let app = default_app_config();
    let menu = build_menu(&app, &ProviderHealth::default(), true);
    assert!(!menu.is_empty());
    match menu.last().unwrap() {
        MenuEntry::Item { id, .. } => assert_eq!(id, "quit"),
        _ => panic!("the last entry is the quit item"),
    }
}

#[test]
fn switching_model_selects_it() {
    let mut app = default_app_config();
    assert!(switch_provider_model(&mut app, "qwen", "qwen3.7-plus").is_ok());
    assert_eq!(app.active, "qwen");
    assert_eq!(app.provider("qwen").unwrap().default_model, "qwen3.7-plus");
    let r = switch_provider_model(&mut app, "nobody", "x");
    assert!(matches!(r, Err(SwitchError::UnknownProvider(_))));
    assert_eq!(app.active, "qwen");
    let r = switch_provider_model(&mut app, "kimi", "no-such-model");
    assert!(matches!(r, Err(SwitchError::Model(_))));
    assert_eq!(app.active, "kimi");
}

#[test]
fn tray_loop_opens_each_window_once_and_closes_the_right_one() {
    let mut w = TrayWindows::none();
    assert_eq!(w.step(TrayEvent::Started), TrayAction::PostCheckHealth);
    assert_eq!(w.step(TrayEvent::CheckHealth), TrayAction::StartHealthCheck);
    assert_eq!(w.step(TrayEvent::RefreshUi), TrayAction::RefreshUi);
    assert_eq!(w.step(TrayEvent::OpenSettings), TrayAction::OpenSettings);
    w.settings_opened(7);
    assert_eq!(w.step(TrayEvent::OpenSettings), TrayAction::FocusSettings);
    assert_eq!(w.step(TrayEvent::OpenLogs), TrayAction::OpenLogs);
    w.logs_opened(9);
    assert_eq!(w.step(TrayEvent::OpenLogs), TrayAction::FocusLogs);
    assert_eq!(w.step(TrayEvent::CloseRequested(42)), TrayAction::Ignore);
    assert_eq!(w.step(TrayEvent::CloseRequested(9)), TrayAction::CloseLogs);
    assert_eq!(w.logs, None);
    assert_eq!(w.settings, Some(7));
    assert_eq!(w.step(TrayEvent::CloseRequested(7)), TrayAction::CloseSettings);
    assert_eq!(w, TrayWindows::none());
    assert_eq!(w.step(TrayEvent::OpenSettings), TrayAction::OpenSettings);
}

#[test]
fn custom_tool_call_survives_the_trip_to_chat_and_back() {
    let request = parse_json(
        r#"{"model":"m","tools":[{"type":"custom","name":"apply_patch"}],"input":[
            {"role":"user","content":"fix it"},
            {"type":"custom_tool_call","call_id":"call_7","name":"apply_patch","input":"*** Begin Patch"},
            {"type":"custom_tool_call_output","call_id":"call_7","output":"done"}
        ]}"#,
    );
    let converted = match convert_responses_to_chat(&request) {
        Ok(c) => c,
        Err(_) => panic!("the request should convert"),
    };
    let chat: Value = serde_json::from_str(&converted.body).unwrap();
    let assistant = &chat["messages"][1];
    let call = &assistant["tool_calls"][0];
    assert_eq!(call["id"], "call_7");
    assert_eq!(call["function"]["name"], "apply_patch");

    let reply = format!(
        r#"{{"id":"chatcmpl_9","choices":[{{"finish_reason":"tool_calls","message":{{"role":"assistant","tool_calls":[{}]}}}}]}}"#,
        serde_json::to_string(call).unwrap()
    );
    let back = chat_completion_to_response_with_context(&parse_json(&reply), &converted.tool_context)
        .ok()
        .unwrap();
    let back = from_json(&back);
    let item = &back["output"][0];
    assert_eq!(item["type"], "custom_tool_call");
    assert_eq!(item["call_id"], "call_7");
    assert_eq!(item["name"], "apply_patch");
    assert_eq!(item["input"], "*** Begin Patch");
}
