//! The proxy's decisions around one upstream exchange: where a request goes,
//! whether an attempt is retried, which client request id is logged, the
//! small status bodies, and what a Chat upstream reply becomes for a
//! Responses client. The exchange itself (sockets, waiting, streaming) is
//! driven by the caller, which hands every outcome back here.
use vstd::prelude::*;

use crate::chat_to_responses::{
    chat_error_text_v, chat_error_v, chat_json_to_responses_json, first_choice_v, response_v,
    usage_sum_fits_v,
};
use crate::canonical::canonical_v;
use crate::codex_setup::{normalize_proxy_url, normalize_proxy_url_v};
use crate::config::{AppConfig, ConfigError, ProviderV};
use crate::json::{get_v, object1, object2, object3, Json, JsonV};
use crate::responses_failed::{extract_upstream_error_message, upstream_error_v};
use crate::text::{ascii_lowercase, concat2, contains, contains_seq, lower_seq, trim, trim_seq};
use crate::tool_context::CodexToolContext;
use crate::upstream_retry::{
    backoff_ms_v, is_retryable_upstream_status, retry_backoff_ms, retry_delay_ms, retry_delay_ms_v,
    retryable_status_v, MAX_UPSTREAM_ATTEMPTS,
};

verus! {

// ---------------------------------------------------------------------------
// Where a request goes

/// The upstream URL of a proxied path: the base URL without trailing
/// slashes, then the path.
pub open spec fn upstream_target_v(base_url: Seq<char>, path: Seq<char>) -> Seq<char> {
    normalize_proxy_url_v(base_url) + path
}

pub fn upstream_target(base_url: &str, path: &str) -> (r: String)
    ensures
        r@ == upstream_target_v(base_url@, path@),
{
    let base = normalize_proxy_url(base_url);
    concat2(base.as_str(), path)
}

// ---------------------------------------------------------------------------
// The client's request id

/// The headers of a request: each name (lower case) with its value, `None`
/// when the value is not visible text.
pub open spec fn headers_view(h: Seq<(String, Option<String>)>) -> Seq<(Seq<char>, Option<Seq<char>>)> {
    h.map_values(
        |e: (String, Option<String>)|
            (
                e.0@,
                match e.1 {
                    Some(t) => Some(t@),
                    None => None,
                },
            ),
    )
}

/// The value of the first header called `name`, trimmed; empty when there
/// is none or it is not visible text.
pub open spec fn header_text_v(h: Seq<(Seq<char>, Option<Seq<char>>)>, name: Seq<char>) -> Seq<char>
    decreases h.len(),
{
    if h.len() == 0 {
        Seq::empty()
    } else if h[0].0 == name {
        match h[0].1 {
            Some(t) => trim_seq(t),
            None => Seq::empty(),
        }
    } else {
        header_text_v(h.skip(1), name)
    }
}

/// The id a client gave its request: the first non-blank of
/// `x-request-id`, `x-correlation-id` and `traceparent`, or empty.
pub open spec fn client_request_id_v(h: Seq<(Seq<char>, Option<Seq<char>>)>) -> Seq<char> {
    let a = header_text_v(h, "x-request-id"@);
    let b = header_text_v(h, "x-correlation-id"@);
    let c = header_text_v(h, "traceparent"@);
    if a.len() > 0 {
        a
    } else if b.len() > 0 {
        b
    } else {
        c
    }
}

fn header_text(headers: &Vec<(String, Option<String>)>, name: &str) -> (r: String)
    ensures
        r@ == header_text_v(headers_view(headers@), name@),
{
    let ghost hv = headers_view(headers@);
    let mut i: usize = 0;
    proof {
        assert(hv.skip(0) =~= hv);
    }
    while i < headers.len()
        invariant
            i <= headers.len(),
            hv == headers_view(headers@),
            header_text_v(hv, name@) == header_text_v(hv.skip(i as int), name@),
        decreases headers.len() - i,
    {
        proof {
            assert(hv.skip(i as int)[0] == hv[i as int]);
            assert(hv.skip(i as int).skip(1) =~= hv.skip(i + 1));
        }
        if crate::text::str_eq(headers[i].0.as_str(), name) {
            return match &headers[i].1 {
                Some(t) => trim(t.as_str()),
                None => String::new(),
            };
        }
        i = i + 1;
    }
    proof {
        assert(hv.skip(i as int).len() == 0);
    }
    String::new()
}

/// The id a client gave its request, from its headers.
pub fn extract_client_request_id(headers: &Vec<(String, Option<String>)>) -> (r: String)
    ensures
        r@ == client_request_id_v(headers_view(headers@)),
{
    let a = header_text(headers, "x-request-id");
    if !a.as_str().is_empty() {
        return a;
    }
    let b = header_text(headers, "x-correlation-id");
    if !b.as_str().is_empty() {
        return b;
    }
    header_text(headers, "traceparent")
}

// ---------------------------------------------------------------------------
// Retrying an upstream exchange

/// What a failed connection to the upstream was, as far as retrying cares.
#[derive(Clone, Copy)]
pub struct UpstreamFailure {
    /// The exchange timed out.
    pub is_timeout: bool,
    /// The connection could not be made.
    pub is_connect: bool,
    /// The request could not be sent.
    pub is_request: bool,
}

/// Timeouts, connection and request errors are retried.
pub open spec fn retryable_failure_v(f: UpstreamFailure) -> bool {
    f.is_timeout || f.is_connect || f.is_request
}

pub fn is_retryable_upstream_error(f: &UpstreamFailure) -> (r: bool)
    ensures
        r == retryable_failure_v(*f),
{
    f.is_timeout || f.is_connect || f.is_request
}

/// The note added to a failed exchange that timed out.
pub open spec fn timeout_hint_v(stream_request: bool, f: UpstreamFailure) -> Seq<char> {
    if !f.is_timeout {
        Seq::empty()
    } else if stream_request {
        "（流式读空闲超时：上游超过 300 秒未发送新数据）"@
    } else {
        "（非流式请求总超时：上游在 600 秒内未完成响应）"@
    }
}

pub fn upstream_timeout_hint(stream_request: bool, f: &UpstreamFailure) -> (r: &'static str)
    ensures
        r@ == timeout_hint_v(stream_request, *f),
{
    if !f.is_timeout {
        proof {
            reveal_strlit("");
        }
        return "";
    }
    if stream_request {
        return "（流式读空闲超时：上游超过 300 秒未发送新数据）";
    }
    "（非流式请求总超时：上游在 600 秒内未完成响应）"
}

/// How one upstream attempt ended.
pub enum UpstreamOutcome {
    /// The upstream answered with this status and `Retry-After` value.
    Reply { status: u16, retry_after: Option<String> },
    /// No answer came.
    Failed(UpstreamFailure),
}

/// What to do after an upstream attempt.
pub enum UpstreamStep {
    /// Wait this long, then send the request again.
    Retry { delay_ms: u64 },
    /// Hand the reply to the client.
    Deliver,
    /// Answer the client with a gateway error.
    GiveUp,
}

/// The view of an optional string.
pub open spec fn opt_view(o: Option<String>) -> Option<Seq<char>> {
    match o {
        Some(s) => Some(s@),
        None => None,
    }
}

/// The step after attempt `attempt` (counted from 0) ended with `outcome`:
/// a retryable status or failure is retried while attempts remain, after
/// the `Retry-After` delay (capped) or the backoff.
pub open spec fn next_step_ok_v(attempt: usize, outcome: UpstreamOutcome, r: UpstreamStep) -> bool {
    match outcome {
        UpstreamOutcome::Reply { status, retry_after } => if retryable_status_v(status) && attempt + 1
            < MAX_UPSTREAM_ATTEMPTS {
            r matches UpstreamStep::Retry { delay_ms } && delay_ms == retry_delay_ms_v(
                opt_view(retry_after),
                attempt,
            )
        } else {
            r is Deliver
        },
        UpstreamOutcome::Failed(f) => if retryable_failure_v(f) && attempt + 1 < MAX_UPSTREAM_ATTEMPTS {
            r matches UpstreamStep::Retry { delay_ms } && delay_ms == backoff_ms_v(attempt)
        } else {
            r is GiveUp
        },
    }
}

/// Law: an upstream reply is retried, while attempts remain, exactly when
/// its status is 429, 502, 503 or 504; any other reply goes back to the
/// client.
pub proof fn lemma_gateway_statuses_are_retried(attempt: usize, outcome: UpstreamOutcome, r: UpstreamStep)
    requires
        attempt + 1 < MAX_UPSTREAM_ATTEMPTS,
        outcome is Reply,
        next_step_ok_v(attempt, outcome, r),
    ensures
        r is Retry <==> (outcome->status == 429 || outcome->status == 502 || outcome->status == 503
            || outcome->status == 504),
        r is Retry || r is Deliver,
{
}

/// Decides what follows an upstream attempt.
pub fn next_upstream_step(attempt: usize, outcome: &UpstreamOutcome) -> (r: UpstreamStep)
    requires
        attempt < MAX_UPSTREAM_ATTEMPTS,
    ensures
        next_step_ok_v(attempt, *outcome, r),
        r is Retry ==> attempt + 1 < MAX_UPSTREAM_ATTEMPTS,
        r matches UpstreamStep::Retry { delay_ms } ==> delay_ms <= 30000,
{
    proof {
        vstd::arithmetic::power2::lemma2_to64();
    }
    let more = attempt + 1 < MAX_UPSTREAM_ATTEMPTS;
    match outcome {
        UpstreamOutcome::Reply { status, retry_after } => {
            if is_retryable_upstream_status(*status) && more {
                let ra = match retry_after {
                    Some(v) => Some(v.as_str()),
                    None => None,
                };
                let delay_ms = retry_delay_ms(ra, attempt);
                UpstreamStep::Retry { delay_ms }
            } else {
                UpstreamStep::Deliver
            }
        },
        UpstreamOutcome::Failed(f) => {
            if is_retryable_upstream_error(f) && more {
                UpstreamStep::Retry { delay_ms: retry_backoff_ms(attempt) }
            } else {
                UpstreamStep::GiveUp
            }
        },
    }
}

/// Law: a request is sent upstream at most `MAX_UPSTREAM_ATTEMPTS` times,
/// and no retry waits longer than 30 seconds. Attempt `k` is only made
/// after the step of attempt `k - 1` was a retry.
pub proof fn lemma_upstream_attempts_are_bounded(steps: Seq<(usize, UpstreamOutcome, UpstreamStep)>)
    requires
        steps.len() > 0,
        forall|k: int| 0 <= k < steps.len() ==> (#[trigger] steps[k]).0 == k,
        forall|k: int|
            0 <= k < steps.len() ==> next_step_ok_v(#[trigger] steps[k].0, steps[k].1, steps[k].2),
        forall|k: int| 0 <= k < steps.len() - 1 ==> (#[trigger] steps[k]).2 is Retry,
    ensures
        steps.len() <= MAX_UPSTREAM_ATTEMPTS,
        forall|k: int|
            0 <= k < steps.len() ==> ((#[trigger] steps[k]).2 matches UpstreamStep::Retry { delay_ms }
                ==> delay_ms <= 30000),
{
    vstd::arithmetic::power2::lemma2_to64();
    if steps.len() > MAX_UPSTREAM_ATTEMPTS {
        let k = MAX_UPSTREAM_ATTEMPTS - 1;
        assert(steps[k as int].0 == k);
        assert(steps[k as int].2 is Retry);
        assert(next_step_ok_v(steps[k as int].0, steps[k as int].1, steps[k as int].2));
    }
    assert forall|k: int|
        0 <= k < steps.len() implies ((#[trigger] steps[k]).2 matches UpstreamStep::Retry { delay_ms }
            ==> delay_ms <= 30000) by {
        assert(next_step_ok_v(steps[k].0, steps[k].1, steps[k].2));
    }
}

// ---------------------------------------------------------------------------
// Small bodies the proxy answers with

/// `{"error": {"message": .., "type": ..}}`.
pub open spec fn error_body_v(message: Seq<char>, error_type: Seq<char>) -> JsonV {
    JsonV::Object(
        seq![
            (
                "error"@,
                JsonV::Object(
                    seq![("message"@, JsonV::Str(message)), ("type"@, JsonV::Str(error_type))],
                ),
            ),
        ],
    )
}

pub fn upstream_error_body(message: &str, error_type: &str) -> (r: Json)
    ensures
        r@ == error_body_v(message@, error_type@),
{
    object1(
        "error",
        object2("message", Json::str_of(message), "type", Json::str_of(error_type)),
    )
}

/// The name of the active provider, or `unknown`.
pub open spec fn active_name_or_unknown_v(app: &AppConfig) -> Seq<char> {
    if app.provider_map().contains_key(app.active@) {
        app.provider_map()[app.active@].name
    } else {
        "unknown"@
    }
}

/// The health body: the proxy runs, with this active provider.
pub open spec fn health_body_v(app: &AppConfig) -> JsonV {
    JsonV::Object(
        seq![
            ("status"@, JsonV::Str("ok"@)),
            ("active"@, JsonV::Str(app.active@)),
            ("provider"@, JsonV::Str(active_name_or_unknown_v(app))),
        ],
    )
}

pub fn health_body(app: &AppConfig) -> (r: Json)
    requires
        app.wf(),
    ensures
        r@ == health_body_v(app),
{
    let name = match app.active_provider() {
        Ok(p) => p.name.clone(),
        Err(_) => "unknown".to_string(),
    };
    object3(
        "status",
        Json::str_of("ok"),
        "active",
        Json::Str(app.active.clone()),
        "provider",
        Json::Str(name),
    )
}

/// The model list: the active provider's selected model.
pub open spec fn models_body_v(p: ProviderV) -> JsonV {
    JsonV::Object(
        seq![
            ("object"@, JsonV::Str("list"@)),
            (
                "data"@,
                JsonV::Array(
                    seq![
                        JsonV::Object(
                            seq![
                                ("id"@, JsonV::Str(p.default_model)),
                                ("object"@, JsonV::Str("model"@)),
                                ("owned_by"@, JsonV::Str(p.id)),
                            ],
                        ),
                    ],
                ),
            ),
        ],
    )
}

pub fn models_list_body(app: &AppConfig) -> (r: Result<Json, ConfigError>)
    requires
        app.wf(),
    ensures
        match r {
            Ok(j) => app.provider_map().contains_key(app.active@) && j@ == models_body_v(
                app.provider_map()[app.active@],
            ),
            Err(ConfigError::UnknownProvider(id)) => !app.provider_map().contains_key(app.active@)
                && id@ == app.active@,
        },
{
    let p = match app.active_provider() {
        Ok(p) => p,
        Err(e) => {
            return Err(e);
        },
    };
    let model = object3(
        "id",
        Json::Str(p.default_model.clone()),
        "object",
        Json::str_of("model"),
        "owned_by",
        Json::Str(p.id.clone()),
    );
    let mut data: Vec<Json> = Vec::new();
    data.push(model);
    let ghost m = data@[0]@;
    let arr = Json::Array(data);
    assert(crate::json::view_items(data@) =~= seq![m]);
    Ok(object2("object", Json::str_of("list"), "data", arr))
}

// ---------------------------------------------------------------------------
// A Chat reply on its way to a Responses client

/// How a Chat upstream reply is to be handled.
pub enum ChatReplyKind {
    /// The status is not a success: answer with a failed response.
    UpstreamError,
    /// An event stream of Chat chunks, translated as it arrives.
    Stream,
    /// A complete Chat completion body to convert.
    Complete,
}

/// A 2xx status.
pub open spec fn is_success_v(status: u16) -> bool {
    200 <= status <= 299
}

/// An event stream by its content type (compared in lower case).
pub open spec fn is_event_stream_v(content_type: Seq<char>) -> bool {
    contains_seq(lower_seq(content_type), "text/event-stream"@)
}

pub fn chat_reply_kind(status: u16, content_type: &str) -> (r: ChatReplyKind)
    ensures
        !is_success_v(status) ==> r is UpstreamError,
        is_success_v(status) && is_event_stream_v(content_type@) ==> r is Stream,
        is_success_v(status) && !is_event_stream_v(content_type@) ==> r is Complete,
{
    if !(200 <= status && status <= 299) {
        return ChatReplyKind::UpstreamError;
    }
    let lower = ascii_lowercase(content_type);
    if contains(lower.as_str(), "text/event-stream") {
        ChatReplyKind::Stream
    } else {
        ChatReplyKind::Complete
    }
}

/// The message and type of the failed response sent when a complete Chat
/// reply cannot be converted: the reason, with what the upstream said when
/// it said anything, typed as the upstream typed it or `upstream_error`.
pub open spec fn conversion_failure_v(reason: Seq<char>, bytes: Seq<u8>, parsed: Option<JsonV>) -> (
    Seq<char>,
    Seq<char>,
) {
    let (m, t) = upstream_error_v(bytes, parsed);
    let message = if m.len() == 0 {
        "Chat 响应转换 Responses 失败: "@ + reason
    } else {
        "Chat 响应转换 Responses 失败: "@ + reason + "（上游返回: "@ + m + "）"@
    };
    let ty = match t {
        Some(t) => t,
        None => "upstream_error"@,
    };
    (message, ty)
}

/// Converts a complete Chat reply to Responses JSON text. `parsed` is the
/// body read as JSON, or the reason it is not JSON. On failure it gives the
/// message and type of the failed response to send instead.
pub fn convert_chat_reply(
    bytes: &[u8],
    parsed: &Result<Json, String>,
    tool_context: &CodexToolContext,
) -> (r: Result<String, (String, String)>)
    requires
        parsed matches Ok(j) ==> usage_sum_fits_v(get_v(j@, "usage"@)),
    ensures
        match parsed {
            Err(reason) => r matches Err(f) && (f.0@, f.1@) == conversion_failure_v(
                reason@,
                bytes@,
                None,
            ),
            Ok(j) => match chat_error_v(j@) {
                Some(e) => r matches Err(f) && (f.0@, f.1@) == conversion_failure_v(
                    chat_error_text_v(e),
                    bytes@,
                    Some(j@),
                ),
                None => first_choice_v(j@) matches Some(c) && get_v(c, "message"@) matches Some(m)
                    && r matches Ok(t) && t@ == canonical_v(
                        response_v(j@, c, m, tool_context.custom_tool_names()),
                    ),
            },
        },
{
    let (reason, json): (String, Option<&Json>) = match parsed {
        Err(reason) => (reason.clone(), None),
        Ok(j) => match chat_json_to_responses_json(j, tool_context) {
            Ok(t) => {
                return Ok(t);
            },
            Err(e) => (e.message().to_string(), Some(j)),
        },
    };
    let (m, t) = extract_upstream_error_message(bytes, json);
    let message = if m.as_str().is_empty() {
        concat2("Chat 响应转换 Responses 失败: ", reason.as_str())
    } else {
        let mut s = concat2("Chat 响应转换 Responses 失败: ", reason.as_str());
        crate::text::push_str(&mut s, "（上游返回: ");
        crate::text::push_str(&mut s, m.as_str());
        crate::text::push_str(&mut s, "）");
        s
    };
    let ty = match t {
        Some(t) => t,
        None => "upstream_error".to_string(),
    };
    Err((message, ty))
}

} // verus!
