//! Codex Helper core: provider presets, model catalogs, and the Responses ⇄
//! Chat Completions request/response translation used by the local proxy.
pub mod text;
pub mod json;
pub mod canonical;
pub mod config;
pub mod presets;
pub mod models;
pub mod provider;
pub mod reasoning;
pub mod reasoning_options;
pub mod codex_chat;
pub mod chat_messages;
pub mod chat_content;
pub mod builtin_tools;
pub mod tool_context;
pub mod responses_to_chat;
pub mod chat_to_responses;
pub mod upstream_retry;
pub mod responses_failed;
pub mod proxy_body;
pub mod proxy_flow;
pub mod request_log;
pub mod codex_setup;
pub mod catalog;
pub mod tray_menu;
pub mod env_sync;
pub mod settings_api;
pub mod cli_report;
pub mod icon;
