# codex_helper

Codex Helper lets the OpenAI Codex CLI and Codex Desktop work with Chinese
model providers (DeepSeek, Qwen, Zhipu, Kimi, MiniMax, a relay of your
choice): a local proxy on `127.0.0.1:25543` takes Codex's Responses API
requests, turns them into Chat Completions requests for the chosen provider,
and turns the answers back.

## Layout

- `src/` is the library, verified with Verus. Every public function states in
  its contract what it returns or changes, over spec functions on plain
  values (`JsonV`, `Seq<char>`, the providers' views).
  - `json`, `canonical`, `text`: the JSON value the library works on, its
    canonical text, and string helpers.
  - `presets`, `provider`, `models`, `config`, `reasoning`: the built-in
    providers, their models and reasoning settings, and the app settings.
  - `responses_to_chat`, `chat_messages`, `chat_content`, `builtin_tools`,
    `tool_context`, `reasoning_options`, `codex_chat`: a Responses request as
    a Chat request, with its tools and tool-call history.
  - `chat_to_responses`, `responses_failed`, `proxy_body`, `proxy_flow`,
    `upstream_retry`: a Chat answer as a Responses answer, failed answers,
    and the proxy's decisions (retries, what to send back).
  - `catalog`, `codex_setup`, `env_sync`: the model catalog and the Codex
    configuration the helper writes.
  - `tray_menu`, `settings_api`, `cli_report`, `request_log`, `icon`: what the
    tray, the settings page, the command line and the request log show.
- `tests/` runs the library on concrete values.
- `app/` is the program around the library: the command line, file and
  network I/O, the HTTP server, and the icon's floating-point drawing.

The laws of the library (what holds across calls) are public proof functions
named `lemma_*` in the modules they are about.
