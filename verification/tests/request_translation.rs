use codex_helper::chat_content::map_role_for_upstream;
use codex_helper::chat_messages::{
    finalize_chat_request, repair_messages_for_upstream, repair_options_for_provider,
    truncate_text_head_tail, RepairMessagesOptions,
};
use codex_helper::config::ProviderConfig;
use codex_helper::json::Json;
use codex_helper::proxy_body::{is_streaming_upstream_body, normalize_upstream_body, patch_upstream_model};
use codex_helper::reasoning_options::{apply_reasoning_options, map_reasoning_effort};
use codex_helper::responses_to_chat::{
    convert_responses_to_chat, convert_responses_to_chat_with_provider, is_openai_o_series,
    ConvertError, ConvertedChatRequest,
};
use serde_json::Value;

fn to_json(v: &Value) -> Json {
    match v {
        Value::Null => Json::Null,
        Value::Bool(b) => Json::Bool(*b),
        Value::Number(n) => Json::Number(n.to_string()),
        Value::String(s) => Json::Str(s.clone()),
        Value::Array(a) => Json::Array(a.iter().map(to_json).collect()),
        Value::Object(o) => Json::Object(o.iter().map(|(k, v)| (k.clone(), to_json(v))).collect()),
    }
}

fn from_json(j: &Json) -> Value {
    match j {
        Json::Null => Value::Null,
        Json::Bool(b) => Value::Bool(*b),
        Json::Number(t) => serde_json::from_str(t).unwrap(),
        Json::Str(s) => Value::String(s.clone()),
        Json::Array(a) => Value::Array(a.iter().map(from_json).collect()),
        Json::Object(o) => {
            let mut m = serde_json::Map::new();
            for (k, v) in o {
                if !m.contains_key(k) {
                    m.insert(k.clone(), from_json(v));
                }
            }
            Value::Object(m)
        }
    }
}

fn parse_json(text: &str) -> Json {
    to_json(&serde_json::from_str::<Value>(text).unwrap())
}

fn converted(r: Result<ConvertedChatRequest, ConvertError>) -> ConvertedChatRequest {
    match r {
        Ok(c) => c,
        Err(_) => panic!("the request should convert"),
    }
}

fn parse_chat(body: &str) -> Value {
    let c = converted(convert_responses_to_chat(&parse_json(body)));
    serde_json::from_str(&c.body).unwrap()
}

fn deepseek_provider() -> ProviderConfig {
    ProviderConfig::new(
        "deepseek",
        "DeepSeek",
        "https://api.deepseek.com/v1",
        "DEEPSEEK_API_KEY",
        "deepseek-v4-pro",
        "deepseek-v4-pro",
        "responses",
    )
}

fn deepseek_flash_provider() -> ProviderConfig {
    ProviderConfig::new(
        "deepseek",
        "DeepSeek",
        "https://api.deepseek.com/v1",
        "DEEPSEEK_API_KEY",
        "deepseek-v4-flash",
        "deepseek-v4-flash",
        "responses",
    )
}

fn qwen_provider() -> ProviderConfig {
    ProviderConfig::new(
        "qwen",
        "千问",
        "https://dashscope.aliyuncs.com/compatible-mode/v1",
        "DASHSCOPE_API_KEY",
        "qwen3.7-max",
        "qwen3.7-max",
        "responses",
    )
}

fn minimax() -> ProviderConfig {
    ProviderConfig::new(
        "minimax",
        "Minimax",
        "https://api.minimaxi.com/v1",
        "MINIMAX_API_KEY",
        "minimax-m3",
        "MiniMax-M3",
        "responses",
    )
}

fn kimi() -> ProviderConfig {
    ProviderConfig::new(
        "kimi",
        "Kimi",
        "https://api.moonshot.cn/v1",
        "MOONSHOT_API_KEY",
        "kimi-k2.6",
        "kimi-k2.6",
        "responses",
    )
}

fn openrouter_custom() -> ProviderConfig {
    ProviderConfig::new(
        "custom",
        "OpenRouter",
        "https://openrouter.ai/api/v1",
        "OPENROUTER_API_KEY",
        "gpt-5.4",
        "gpt-5.4",
        "responses",
    )
}

fn zhipu() -> ProviderConfig {
    ProviderConfig::new(
        "zhipu",
        "智谱",
        "https://open.bigmodel.cn/api/paas/v4",
        "ZHIPU_API_KEY",
        "glm-5.1",
        "glm-5.1",
        "responses",
    )
}

fn mimo() -> ProviderConfig {
    ProviderConfig::new(
        "mimo",
        "小米 MiMo",
        "https://api.xiaomimimo.com/v1",
        "MIMO_API_KEY",
        "mimo-v2.5-pro",
        "mimo-v2.5-pro",
        "responses",
    )
}

fn apply(chat: &str, provider: &ProviderConfig) -> Value {
    let mut j = parse_json(chat);
    apply_reasoning_options(&mut j, provider);
    from_json(&j)
}

fn normalize(body: &str, provider: &ProviderConfig, max: usize) -> Value {
    let out = normalize_upstream_body(parse_json(body), provider, max);
    serde_json::from_str(&out).unwrap()
}

// ---------------------------------------------------------------------------
// Responses -> Chat

#[test]
fn convert_with_provider_maps_reasoning_at_transform_stage() {
    let body = r#"{
        "model": "deepseek-v4-pro",
        "stream": false,
        "reasoning": {"effort": "high"},
        "input": [{"role": "user", "content": "hi"}]
    }"#;
    let c = converted(convert_responses_to_chat_with_provider(
        &parse_json(body),
        Some(&deepseek_provider()),
        0,
    ));
    let chat: Value = serde_json::from_str(&c.body).unwrap();
    assert_eq!(chat["reasoning_effort"], "high");
    assert_eq!(chat["thinking"]["type"], "enabled");
    assert!(chat.get("reasoning").is_none());
}

#[test]
fn preserves_input_image_as_multimodal_content() {
    let body = r#"{
        "model": "gpt-5.5",
        "input": [{
            "type": "message",
            "role": "user",
            "content": [
                {"type": "input_text", "text": "what is this"},
                {"type": "input_image", "image_url": "https://example.com/a.png"}
            ]
        }]
    }"#;
    let v = parse_chat(body);
    let content = &v["messages"][0]["content"];
    assert!(content.is_array());
    assert_eq!(content[0]["type"], "text");
    assert_eq!(content[1]["type"], "image_url");
}

#[test]
fn preserves_input_file_as_text_placeholder() {
    let body = r#"{
        "model": "gpt-5.5",
        "input": [{
            "type": "message",
            "role": "user",
            "content": [
                {"type": "input_text", "text": "summarize"},
                {"type": "input_file", "filename": "README.md", "mime_type": "text/markdown"}
            ]
        }]
    }"#;
    let v = parse_chat(body);
    assert_eq!(
        v["messages"][0]["content"],
        "summarize\n[Attached file: README.md (text/markdown)]"
    );
}

#[test]
fn parses_array_instructions_into_system_message() {
    let body = r#"{
        "model": "gpt-5.5",
        "instructions": [{"type": "input_text", "text": "Be helpful."}],
        "input": [{"role": "user", "content": "hi"}]
    }"#;
    let v = parse_chat(body);
    assert_eq!(v["messages"][0]["role"], "system");
    assert_eq!(v["messages"][0]["content"], "Be helpful.");
}

#[test]
fn forwards_reasoning_and_seed_fields() {
    let body = r#"{
        "model": "deepseek-v4-pro",
        "stream": true,
        "seed": 42,
        "reasoning": {"effort": "high"},
        "input": [{"role": "user", "content": "hi"}]
    }"#;
    let v = parse_chat(body);
    assert_eq!(v["reasoning"]["effort"], "high");
    assert_eq!(v["seed"], 42);
}

#[test]
fn forwards_tools_from_responses_request() {
    let body = r#"{
        "model": "qwen3.7-plus",
        "stream": true,
        "tools": [{
            "type": "function",
            "name": "read_file",
            "description": "Read a file",
            "parameters": {"type": "object", "properties": {"path": {"type": "string"}}}
        }],
        "input": [{"role": "user", "content": "hi"}]
    }"#;
    let v = parse_chat(body);
    assert_eq!(v["tools"][0]["function"]["name"], "read_file");
    assert_eq!(v["messages"][0]["role"], "user");
}

#[test]
fn flattens_structured_user_content_to_plain_string() {
    let body = r#"{
        "model": "gpt-5.5",
        "input": [{
            "type": "message",
            "role": "user",
            "content": [{"type": "input_text", "text": "hello"}]
        }]
    }"#;
    let v = parse_chat(body);
    assert_eq!(v["messages"][0]["content"], "hello");
}

#[test]
fn preserves_reasoning_content_on_function_call_roundtrip() {
    let body = r#"{
        "model": "deepseek-v4-pro",
        "input": [
            {"type": "message", "role": "user", "content": "read file"},
            {"type": "reasoning", "summary": [{"type": "summary_text", "text": "Need file."}]},
            {"type": "function_call", "call_id": "call_1", "name": "read_file", "arguments": "{\"path\":\"a.md\"}", "reasoning_content": "Need file."},
            {"type": "function_call_output", "call_id": "call_1", "output": "ok"}
        ]
    }"#;
    let v = parse_chat(body);
    let assistant = &v["messages"][1];
    assert_eq!(assistant["role"], "assistant");
    assert_eq!(assistant["reasoning_content"], "Need file.");
    assert_eq!(assistant["tool_calls"][0]["function"]["name"], "read_file");
}

#[test]
fn uses_reasoning_summary_before_tool_call_without_placeholder() {
    let body = r#"{
        "model": "deepseek-v4-pro",
        "input": [
            {"type": "message", "role": "user", "content": "read file"},
            {"type": "reasoning", "summary": [{"type": "summary_text", "text": "Need file."}]},
            {"type": "function_call", "call_id": "call_1", "name": "read_file", "arguments": "{\"path\":\"a.md\"}"},
            {"type": "function_call_output", "call_id": "call_1", "output": "ok"}
        ]
    }"#;
    let c = converted(convert_responses_to_chat_with_provider(
        &parse_json(body),
        Some(&deepseek_provider()),
        0,
    ));
    let v: Value = serde_json::from_str(&c.body).unwrap();
    assert_eq!(v["messages"][1]["reasoning_content"], "Need file.");
    assert_ne!(v["messages"][1]["reasoning_content"], "tool call");
}

#[test]
fn backfill_inherits_reasoning_from_earlier_assistant_message() {
    let body = r#"{
        "model": "deepseek-v4-pro",
        "messages": [
            {"role": "assistant", "content": "", "reasoning_content": "Plan the patch."},
            {"role": "user", "content": "apply it"},
            {"role": "assistant", "content": null, "tool_calls": [
                {"id": "call_1", "type": "function", "function": {"name": "apply_patch", "arguments": "{}"}}
            ]},
            {"role": "tool", "tool_call_id": "call_1", "content": "ok"}
        ]
    }"#;
    let v = normalize(body, &deepseek_provider(), 0);
    assert_eq!(v["messages"][2]["reasoning_content"], "Plan the patch.");
}

#[test]
fn truncates_large_tool_output_when_enabled() {
    let long_output = "HEAD".to_string() + &"x".repeat(200) + "TAIL";
    let body = format!(
        r#"{{
        "model": "deepseek-v4-pro",
        "messages": [
            {{"role": "assistant", "content": null, "tool_calls": [
                {{"id": "call_1", "type": "function", "function": {{"name": "grep", "arguments": "{{}}"}}}}
            ]}},
            {{"role": "tool", "tool_call_id": "call_1", "content": {}}}
        ]
    }}"#,
        serde_json::to_string(&long_output).unwrap()
    );
    let v = normalize(&body, &deepseek_provider(), 80);
    let content = v["messages"][1]["content"].as_str().unwrap();
    assert!(content.contains("HEAD"));
    assert!(content.contains("TAIL"));
    assert!(content.contains("truncated"));
    assert!(content.chars().count() < long_output.chars().count());
}

#[test]
fn leaves_tool_output_intact_when_truncation_disabled() {
    let long_output = "a".repeat(500);
    let body = format!(
        r#"{{
        "model": "deepseek-v4-pro",
        "messages": [
            {{"role": "assistant", "content": null, "tool_calls": [
                {{"id": "call_1", "type": "function", "function": {{"name": "grep", "arguments": "{{}}"}}}}
            ]}},
            {{"role": "tool", "tool_call_id": "call_1", "content": {}}}
        ]
    }}"#,
        serde_json::to_string(&long_output).unwrap()
    );
    let v = normalize(&body, &deepseek_provider(), 0);
    assert_eq!(v["messages"][1]["content"], long_output);
}

#[test]
fn merges_multiple_tool_calls_before_outputs() {
    let body = r#"{
        "model": "gpt-5.5",
        "input": [
            {"type": "function_call", "call_id": "call_1", "name": "read_file", "arguments": "{\"path\":\"README.md\"}"},
            {"type": "function_call", "call_id": "call_2", "name": "list_files", "arguments": "{\"path\":\"src\"}"},
            {"type": "function_call_output", "call_id": "call_1", "output": "Readme content"},
            {"type": "function_call_output", "call_id": "call_2", "output": "main.rs"},
            {"type": "message", "role": "user", "content": "Continue"}
        ]
    }"#;
    let v = parse_chat(body);
    let msgs = v["messages"].as_array().unwrap();
    assert_eq!(msgs.len(), 4);
    assert_eq!(msgs[0]["tool_calls"].as_array().unwrap().len(), 2);
    assert_eq!(msgs[1]["tool_call_id"], "call_1");
    assert_eq!(msgs[2]["tool_call_id"], "call_2");
}

#[test]
fn converts_function_call_history() {
    let body = r#"{
        "model": "qwen3.7-plus",
        "input": [
            {"type": "message", "role": "user", "content": "open app"},
            {"type": "function_call", "call_id": "call_1", "name": "read_file", "arguments": "{\"path\":\"a.md\"}"},
            {"type": "function_call_output", "call_id": "call_1", "output": "ok"}
        ]
    }"#;
    let v = parse_chat(body);
    let msgs = v["messages"].as_array().unwrap();
    assert_eq!(msgs.len(), 3);
    assert_eq!(msgs[1]["tool_calls"][0]["function"]["name"], "read_file");
    assert_eq!(msgs[2]["role"], "tool");
}

#[test]
fn backfills_missing_tool_responses_for_parallel_calls() {
    let body = r#"{
        "model": "gpt-5.5",
        "input": [
            {"type": "function_call", "call_id": "call_1", "name": "read_file", "arguments": "{}"},
            {"type": "function_call", "call_id": "call_2", "name": "list_files", "arguments": "{}"},
            {"type": "function_call_output", "call_id": "call_1", "output": "ok"},
            {"type": "message", "role": "user", "content": "Continue"}
        ]
    }"#;
    let v = parse_chat(body);
    let msgs = v["messages"].as_array().unwrap();
    assert_eq!(msgs.len(), 4);
    assert_eq!(msgs[1]["tool_call_id"], "call_1");
    assert_eq!(msgs[2]["tool_call_id"], "call_2");
    assert_eq!(msgs[2]["content"], "");
}

#[test]
fn backfills_tool_responses_when_assistant_tool_calls_trail_history() {
    let body = r#"{
        "model": "gpt-5.5",
        "messages": [
            {"role": "user", "content": "run tools"},
            {"role": "assistant", "content": null, "tool_calls": [
                {"id": "call_1", "type": "function", "function": {"name": "a", "arguments": "{}"}},
                {"id": "call_2", "type": "function", "function": {"name": "b", "arguments": "{}"}}
            ]}
        ]
    }"#;
    let v = parse_chat(body);
    let msgs = v["messages"].as_array().unwrap();
    assert_eq!(msgs.len(), 4);
    assert_eq!(msgs[2]["tool_call_id"], "call_1");
    assert_eq!(msgs[3]["tool_call_id"], "call_2");
}

#[test]
fn collapses_mid_stream_system_messages_to_head() {
    let body = r#"{
        "model": "minimax-m3",
        "messages": [
            {"role": "system", "content": "base"},
            {"role": "user", "content": "hi"},
            {"role": "system", "content": "reminder"},
            {"role": "assistant", "content": "ok"}
        ]
    }"#;
    let v = parse_chat(body);
    let msgs = v["messages"].as_array().unwrap();
    assert_eq!(msgs.len(), 3);
    assert_eq!(msgs[0]["role"], "system");
    assert_eq!(msgs[0]["content"], "base\n\nreminder");
    assert_eq!(msgs[1]["role"], "user");
}

#[test]
fn maps_latest_reminder_role_to_user() {
    assert_eq!(map_role_for_upstream("latest_reminder"), "user");
    assert_eq!(map_role_for_upstream("developer"), "system");
}

#[test]
fn strips_tool_choice_when_tools_are_absent() {
    let body = r#"{
        "model": "gpt-5.5",
        "stream": false,
        "tool_choice": "auto",
        "parallel_tool_calls": true,
        "input": [{"role": "user", "content": "hi"}]
    }"#;
    let v = parse_chat(body);
    assert!(v.get("tool_choice").is_none());
    assert!(v.get("parallel_tool_calls").is_none());
}

#[test]
fn injects_stream_options_include_usage_for_streaming_requests() {
    let body = r#"{
        "model": "gpt-5.5",
        "stream": true,
        "input": [{"role": "user", "content": "hi"}]
    }"#;
    let v = parse_chat(body);
    assert_eq!(v["stream_options"]["include_usage"], true);
}

#[test]
fn canonicalizes_empty_tool_arguments_to_object() {
    let body = r#"{
        "model": "minimax-m3",
        "input": [
            {"type": "function_call", "call_id": "call_1", "name": "noop", "arguments": ""},
            {"type": "function_call_output", "call_id": "call_1", "output": "ok"}
        ]
    }"#;
    let v = parse_chat(body);
    assert_eq!(v["messages"][0]["tool_calls"][0]["function"]["arguments"], "{}");
}

#[test]
fn preserves_web_search_call_as_synthetic_tool_history() {
    let body = r#"{
        "model": "gpt-5.4",
        "input": [
            {"type": "message", "role": "user", "content": "search rust async"},
            {
                "type": "web_search_call",
                "id": "ws_1",
                "status": "completed",
                "action": {"type": "search", "query": "rust async tutorial"}
            },
            {"type": "message", "role": "user", "content": "continue"}
        ]
    }"#;
    let v = parse_chat(body);
    let msgs = v["messages"].as_array().unwrap();
    assert_eq!(msgs.len(), 4);
    assert_eq!(msgs[0]["role"], "user");
    assert_eq!(msgs[1]["tool_calls"][0]["function"]["name"], "codex_builtin__web_search");
    assert_eq!(msgs[1]["tool_calls"][0]["id"], "ws_1");
    assert_eq!(msgs[2]["role"], "tool");
    assert_eq!(msgs[2]["tool_call_id"], "ws_1");
    assert!(msgs[1]["tool_calls"][0]["function"]["arguments"]
        .as_str()
        .unwrap()
        .contains("rust async tutorial"));
    assert!(msgs[2]["content"].as_str().unwrap().contains("completed"));
    assert_eq!(msgs[3]["content"], "continue");
}

#[test]
fn builtin_tool_history_avoids_duplicate_web_search_payload() {
    let body = r#"{
        "model": "gpt-5.4",
        "input": [{
            "type": "web_search_call",
            "id": "ws_big",
            "status": "completed",
            "action": {
                "type": "search",
                "query": "rust async tutorial",
                "sources": [
                    {"type": "url", "url": "https://example.com/a", "title": "A"},
                    {"type": "url", "url": "https://example.com/b", "title": "B"}
                ]
            }
        }]
    }"#;
    let v = parse_chat(body);
    let args = v["messages"][0]["tool_calls"][0]["function"]["arguments"].as_str().unwrap();
    let tool_content = v["messages"][1]["content"].as_str().unwrap();
    assert!(args.contains("rust async tutorial"));
    assert!(!args.contains("example.com/a"));
    assert!(tool_content.contains("example.com/a"));
    assert!(tool_content.contains("example.com/b"));
}

#[test]
fn preserves_file_search_call_as_synthetic_tool_history() {
    let body = r#"{
        "model": "gpt-5.4",
        "input": [
            {
                "type": "file_search_call",
                "id": "fs_1",
                "status": "completed",
                "queries": ["project readme", "setup guide"]
            }
        ]
    }"#;
    let v = parse_chat(body);
    let msgs = v["messages"].as_array().unwrap();
    assert_eq!(msgs.len(), 2);
    assert_eq!(msgs[0]["tool_calls"][0]["function"]["name"], "codex_builtin__file_search");
    assert!(msgs[0]["tool_calls"][0]["function"]["arguments"]
        .as_str()
        .unwrap()
        .contains("project readme"));
    assert_eq!(msgs[1]["tool_call_id"], "fs_1");
}

#[test]
fn preserves_local_shell_call_and_output_sequence() {
    let body = r#"{
        "model": "gpt-5.4",
        "input": [
            {
                "type": "local_shell_call",
                "call_id": "shell_1",
                "status": "completed",
                "action": {"command": ["cargo", "test"]}
            },
            {
                "type": "local_shell_call_output",
                "call_id": "shell_1",
                "output": "ok. 91 passed"
            },
            {"type": "message", "role": "user", "content": "next"}
        ]
    }"#;
    let v = parse_chat(body);
    let msgs = v["messages"].as_array().unwrap();
    assert_eq!(msgs.len(), 3);
    assert_eq!(msgs[0]["tool_calls"][0]["function"]["name"], "codex_builtin__local_shell");
    assert_eq!(msgs[1]["tool_call_id"], "shell_1");
    assert_eq!(msgs[1]["content"], "ok. 91 passed");
    let args = msgs[0]["tool_calls"][0]["function"]["arguments"].as_str().unwrap();
    assert!(args.contains("cargo"));
    assert!(!args.contains("91 passed"));
}

#[test]
fn preserves_item_reference_as_user_context() {
    let body = r#"{
        "model": "gpt-5.4",
        "input": [
            {"type": "item_reference", "id": "msg_prev_1"},
            {"type": "message", "role": "user", "content": "go on"}
        ]
    }"#;
    let v = parse_chat(body);
    let msgs = v["messages"].as_array().unwrap();
    assert_eq!(msgs.len(), 2);
    assert_eq!(msgs[0]["content"], "[Referenced prior item: msg_prev_1]");
    assert_eq!(msgs[1]["content"], "go on");
}

#[test]
fn repairs_consecutive_assistant_tool_calls_in_messages_array() {
    let body = r#"{
        "model": "gpt-5.5",
        "messages": [
            {"role": "assistant", "content": null, "tool_calls": [{"id": "call_1", "type": "function", "function": {"name": "a", "arguments": "{}"}}]},
            {"role": "assistant", "content": null, "tool_calls": [{"id": "call_2", "type": "function", "function": {"name": "b", "arguments": "{}"}}]},
            {"role": "tool", "tool_call_id": "call_1", "content": "1"},
            {"role": "tool", "tool_call_id": "call_2", "content": "2"}
        ]
    }"#;
    let v = parse_chat(body);
    let msgs = v["messages"].as_array().unwrap();
    assert_eq!(msgs.len(), 3);
    assert_eq!(msgs[0]["tool_calls"].as_array().unwrap().len(), 2);
}

#[test]
fn request_without_messages_is_refused() {
    let body = parse_json(r#"{"model": "gpt-5.5", "instructions": "   "}"#);
    match convert_responses_to_chat(&body) {
        Err(ConvertError::NoMessages) => {}
        Ok(_) => panic!("a request without messages cannot convert"),
    }
}

#[test]
fn converted_request_reports_model_stream_and_default_model() {
    let c = converted(convert_responses_to_chat(&parse_json(
        r#"{"stream": true, "input": "hello"}"#,
    )));
    assert_eq!(c.model, "deepseek-v4-flash");
    assert!(c.stream);
    let v: Value = serde_json::from_str(&c.body).unwrap();
    assert_eq!(v["messages"][0]["role"], "user");
    assert_eq!(v["messages"][0]["content"], "hello");
}

#[test]
fn max_output_tokens_follow_the_model_family() {
    let o = parse_chat(r#"{"model": "gpt-5.5", "max_output_tokens": 100, "input": "hi"}"#);
    assert_eq!(o["max_completion_tokens"], 100);
    assert!(o.get("max_tokens").is_none());
    let other = parse_chat(r#"{"model": "deepseek-v4-pro", "max_output_tokens": 100, "input": "hi"}"#);
    assert_eq!(other["max_tokens"], 100);
    assert!(is_openai_o_series("  O3-mini "));
    assert!(!is_openai_o_series("glm-5.1"));
}

// ---------------------------------------------------------------------------
// Reasoning options

#[test]
fn maps_deepseek_reasoning_effort() {
    let chat = apply(
        r#"{"model": "deepseek-v4-pro", "reasoning": {"effort": "high"}}"#,
        &deepseek_provider(),
    );
    assert_eq!(chat["thinking"]["type"], "enabled");
    assert_eq!(chat["reasoning_effort"], "high");
    assert!(chat.get("reasoning").is_none());
}

#[test]
fn minimax_uses_adaptive_thinking_type() {
    let chat = apply(r#"{"model": "MiniMax-M3", "reasoning": {"effort": "high"}}"#, &minimax());
    assert_eq!(chat["thinking"]["type"], "adaptive");
    assert_eq!(chat["reasoning_split"], true);
    assert!(chat.get("reasoning").is_none());
    assert!(!chat.to_string().contains("enabled"));
}

#[test]
fn minimax_explicit_none_uses_disabled_thinking_type() {
    let chat = apply(r#"{"model": "MiniMax-M3", "reasoning": {"effort": "none"}}"#, &minimax());
    assert_eq!(chat["thinking"]["type"], "disabled");
    assert!(chat.get("reasoning_split").is_none());
}

#[test]
fn maps_kimi_thinking_toggle() {
    let chat = apply(r#"{"model": "kimi-k2.6", "reasoning": {"effort": "medium"}}"#, &kimi());
    assert_eq!(chat["thinking"]["type"], "enabled");
    assert!(chat.get("reasoning").is_none());
    assert!(chat.get("reasoning_effort").is_none());
}

#[test]
fn maps_deepseek_max_effort_to_max() {
    let chat = apply(
        r#"{"model": "deepseek-v4-pro", "reasoning": {"effort": "max"}}"#,
        &deepseek_provider(),
    );
    assert_eq!(chat["reasoning_effort"], "max");
    assert_eq!(chat["thinking"]["type"], "enabled");
}

#[test]
fn deepseek_explicit_none_disables_thinking_without_effort_alias() {
    let chat = apply(
        r#"{"model": "deepseek-v4-pro", "reasoning": {"effort": "none"}}"#,
        &deepseek_provider(),
    );
    assert_eq!(chat["thinking"]["type"], "disabled");
    assert!(chat.get("reasoning_effort").is_none());
    assert!(chat.get("reasoning").is_none());
}

#[test]
fn openrouter_maps_max_to_xhigh_in_native_reasoning_object() {
    let chat = apply(
        r#"{"model": "deepseek/deepseek-chat-v3.1", "reasoning": {"effort": "max"}}"#,
        &openrouter_custom(),
    );
    assert_eq!(chat["reasoning"]["effort"], "xhigh");
    assert!(chat.get("reasoning_effort").is_none());
    assert!(chat.get("thinking").is_none());
}

#[test]
fn zhipu_uses_thinking_type_not_reasoning_effort() {
    let chat = apply(r#"{"model": "glm-5.1", "reasoning": {"effort": "low"}}"#, &zhipu());
    assert_eq!(chat["thinking"]["type"], "enabled");
    assert!(chat.get("reasoning_effort").is_none());
    assert!(chat.get("reasoning").is_none());
}

#[test]
fn kimi_preserves_thinking_keep_for_tool_history() {
    let chat = apply(r#"{"model": "kimi-k2.6", "reasoning": {"effort": "high"}}"#, &kimi());
    assert_eq!(chat["thinking"]["type"], "enabled");
    assert_eq!(chat["thinking"]["keep"], "all");
}

#[test]
fn qwen_uses_enable_thinking_without_reasoning_effort() {
    let chat = apply(r#"{"model": "qwen3.7-max", "reasoning": {"effort": "medium"}}"#, &qwen_provider());
    assert_eq!(chat["enable_thinking"], true);
    assert!(chat.get("thinking").is_none());
    assert!(chat.get("reasoning_effort").is_none());
}

#[test]
fn mimo_uses_enable_thinking_without_unsupported_fields() {
    let chat = apply(r#"{"model": "mimo-v2.5-pro", "reasoning": {"effort": "high"}}"#, &mimo());
    assert_eq!(chat["enable_thinking"], true);
    assert!(chat.get("thinking").is_none());
    assert!(chat.get("reasoning_effort").is_none());
    assert!(chat.get("reasoning_split").is_none());
}

#[test]
fn openrouter_passes_explicit_none_through() {
    let chat = apply(r#"{"model": "openai/gpt-5", "reasoning": {"effort": "none"}}"#, &openrouter_custom());
    assert_eq!(chat["reasoning"]["effort"], "none");
    assert!(chat.get("reasoning_effort").is_none());
    assert!(chat.get("thinking").is_none());
}

#[test]
fn reasoning_effort_mapping_per_mode() {
    assert_eq!(map_reasoning_effort(" High ", None), Some("high"));
    assert_eq!(map_reasoning_effort("off", Some("deepseek")), None);
    assert_eq!(map_reasoning_effort("low", Some("deepseek")), Some("high"));
    assert_eq!(map_reasoning_effort("xhigh", Some("deepseek")), Some("max"));
    assert_eq!(map_reasoning_effort("minimal", Some("low_high")), Some("low"));
    assert_eq!(map_reasoning_effort("max", Some("openrouter")), Some("xhigh"));
    assert_eq!(map_reasoning_effort("extreme", None), None);
}

#[test]
fn request_without_reasoning_is_left_alone() {
    let chat = apply(r#"{"model": "deepseek-v4-pro", "messages": []}"#, &deepseek_provider());
    assert!(chat.get("thinking").is_none());
    assert!(chat.get("reasoning_effort").is_none());
}

// ---------------------------------------------------------------------------
// Upstream bodies

#[test]
fn maps_reasoning_effort_for_deepseek_provider() {
    let body = r#"{"model":"deepseek-v4-pro","stream":false,"reasoning":{"effort":"high"},"messages":[{"role":"user","content":"hi"}]}"#;
    let v = normalize(body, &deepseek_flash_provider(), 0);
    assert_eq!(v["reasoning_effort"], "high");
    assert_eq!(v["thinking"]["type"], "enabled");
    assert!(v.get("reasoning").is_none());
}

#[test]
fn injects_reasoning_placeholder_only_for_thinking_providers() {
    let body = r#"{"model":"deepseek-v4-flash","messages":[
        {"role":"user","content":"run"},
        {"role":"assistant","content":"","tool_calls":[{"id":"call_1","type":"function","function":{"name":"a","arguments":"{}"}}]},
        {"role":"tool","tool_call_id":"call_1","content":"ok"}
    ]}"#;
    let deepseek = normalize(body, &deepseek_flash_provider(), 0);
    let qwen = normalize(body, &qwen_provider(), 0);
    assert_eq!(deepseek["messages"][1]["reasoning_content"], "tool call");
    assert!(qwen["messages"][1].get("reasoning_content").is_none());
}

#[test]
fn maps_developer_role_to_system() {
    let body = r#"{"model":"deepseek-v4-flash","messages":[{"role":"developer","content":[{"type":"input_text","text":"hi"}]}]}"#;
    let v = normalize(body, &deepseek_flash_provider(), 0);
    assert_eq!(v["messages"][0]["role"], "system");
    assert_eq!(v["messages"][0]["content"], "hi");
    assert_eq!(v["model"], "deepseek-v4-flash");
}

#[test]
fn patch_upstream_model_only_replaces_model_field() {
    let provider = deepseek_flash_provider();
    let body = r#"{"model":"gpt-5.4","stream":true,"messages":[{"role":"developer","content":"hi"}]}"#;
    let out = patch_upstream_model(parse_json(body), &provider);
    let v: Value = serde_json::from_str(&out).unwrap();
    assert_eq!(v["model"], "deepseek-v4-flash");
    assert_eq!(v["messages"][0]["role"], "developer");
}

#[test]
fn detects_streaming_flag_in_upstream_body() {
    assert!(!is_streaming_upstream_body(None));
    assert!(!is_streaming_upstream_body(Some(&parse_json(r#"{"model":"m","stream":false}"#))));
    assert!(is_streaming_upstream_body(Some(&parse_json(r#"{"model":"m","stream":true}"#))));
}

// ---------------------------------------------------------------------------
// History repair and request finishing

#[test]
fn truncation_keeps_head_and_tail_and_counts_the_cut() {
    let text = "a".repeat(100) + &"b".repeat(100);
    let out = truncate_text_head_tail(&text, 80);
    assert_eq!(out, format!("{}\n\n[... truncated 168 chars ...]\n\n{}", "a".repeat(16), "b".repeat(16)));
    assert_eq!(truncate_text_head_tail("short", 80), "short");
    assert_eq!(truncate_text_head_tail(&text, 0), text);
}

#[test]
fn repair_answers_each_call_in_order() {
    let mut messages = match parse_json(
        r#"[
            {"role": "assistant", "content": null, "tool_calls": [
                {"id": "a", "type": "function", "function": {"name": "x", "arguments": "{}"}},
                {"id": "b", "type": "function", "function": {"name": "y", "arguments": "{}"}}
            ]},
            {"role": "tool", "tool_call_id": "b", "content": "B"},
            {"role": "tool", "tool_call_id": "a", "content": "A1"},
            {"role": "tool", "tool_call_id": "a", "content": "A2"},
            {"role": "user", "content": "next"}
        ]"#,
    ) {
        Json::Array(v) => v,
        _ => panic!("an array"),
    };
    repair_messages_for_upstream(&mut messages);
    let v: Vec<Value> = messages.iter().map(from_json).collect();
    assert_eq!(v.len(), 4);
    assert_eq!(v[0]["content"], "");
    assert_eq!(v[1]["tool_call_id"], "a");
    assert_eq!(v[1]["content"], "A2");
    assert_eq!(v[2]["tool_call_id"], "b");
    assert_eq!(v[3]["role"], "user");
}

#[test]
fn finalize_leaves_tools_settings_when_tools_exist() {
    let mut chat = parse_json(
        r#"{"tools": [{"type": "function", "function": {"name": "f"}}], "tool_choice": "auto", "stream_options": {"x": 1}}"#,
    );
    finalize_chat_request(&mut chat, true);
    let v = from_json(&chat);
    assert_eq!(v["tool_choice"], "auto");
    assert_eq!(v["stream_options"]["include_usage"], true);
    assert_eq!(v["stream_options"]["x"], 1);
}

#[test]
fn repair_options_follow_the_provider() {
    let o = repair_options_for_provider(Some(&deepseek_provider()), 12);
    assert!(o.preserve_reasoning_content);
    assert_eq!(o.tool_output_max_chars, 12);
    let q = repair_options_for_provider(Some(&qwen_provider()), 0);
    assert!(!q.preserve_reasoning_content);
    let d = RepairMessagesOptions::default();
    assert!(!d.preserve_reasoning_content);
    assert_eq!(d.tool_output_max_chars, 0);
}

#[test]
fn custom_tools_travel_as_functions_with_an_input_string() {
    let body = r#"{"model":"m","input":"hi","tools":[
        {"type":"custom","name":"apply_patch","description":"patch"},
        {"type":"function","name":"shell","parameters":{"type":"object"}},
        {"type":"web_search"}
    ]}"#;
    let c = converted(convert_responses_to_chat(&parse_json(body)));
    let chat: Value = serde_json::from_str(&c.body).unwrap();
    let tools = chat["tools"].as_array().unwrap();
    assert_eq!(tools.len(), 2);
    assert_eq!(tools[0]["type"], "function");
    assert_eq!(tools[0]["function"]["name"], "apply_patch");
    assert_eq!(tools[0]["function"]["description"], "patch");
    assert_eq!(tools[0]["function"]["parameters"]["properties"]["input"]["type"], "string");
    assert_eq!(tools[0]["function"]["parameters"]["required"][0], "input");
    assert_eq!(tools[1]["function"]["name"], "shell");
    assert!(c.tool_context.is_custom_tool_chat_name("apply_patch"));
    assert!(!c.tool_context.is_custom_tool_chat_name("shell"));
}
