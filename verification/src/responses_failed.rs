//! Upstream and proxy errors in the `failed` shape that Codex understands
//! from a Responses API.
use vstd::prelude::*;

use crate::builtin_tools::either_v;
use crate::canonical::{canonical_json_string, canonical_v};
use crate::chat_to_responses::{empty_usage_v, num_v};
use crate::json::{
    get_str_v, get_v, lemma_view_items_empty, number_of_u64, object1, object2, set_v,
    view_entries, view_items, Json, JsonV,
};
use crate::text::{chars_of, concat3, string_of_range};

verus! {

/// The `error` object: the message, and the type when one is given.
pub open spec fn error_object_v(message: Seq<char>, error_type: Option<Seq<char>>) -> JsonV {
    let e = JsonV::Object(seq![("message"@, JsonV::Str(message))]);
    match error_type {
        Some(t) => if t.len() > 0 {
            set_v(e, "type"@, JsonV::Str(t))
        } else {
            e
        },
        None => e,
    }
}

/// A failed Responses response created at `created_at` (seconds).
pub open spec fn failed_value_v(
    message: Seq<char>,
    error_type: Option<Seq<char>>,
    model: Option<Seq<char>>,
    created_at: u64,
) -> JsonV {
    JsonV::Object(
        seq![
            ("id"@, JsonV::Str("resp_helper_failed"@)),
            ("object"@, JsonV::Str("response"@)),
            ("created_at"@, num_v(created_at as nat)),
            ("status"@, JsonV::Str("failed"@)),
            ("model"@, JsonV::Str(
                match model {
                    Some(m) => m,
                    None => Seq::empty(),
                },
            )),
            ("output"@, JsonV::Array(Seq::empty())),
            ("error"@, error_object_v(message, error_type)),
            ("usage"@, empty_usage_v()),
        ],
    )
}

/// The failed response for an error, created at `created_at` (seconds since
/// the epoch).
pub fn responses_failed_value(
    message: &str,
    error_type: Option<&str>,
    model: Option<&str>,
    created_at: u64,
) -> (r: Json)
    ensures
        r@ == failed_value_v(
            message@,
            match error_type {
                Some(t) => Some(t@),
                None => None,
            },
            match model {
                Some(m) => Some(m@),
                None => None,
            },
            created_at,
        ),
{
    let mut error = object1("message", Json::str_of(message));
    match error_type {
        Some(t) => if !t.is_empty() {
            error.set("type", Json::str_of(t));
        },
        None => {},
    }
    let model_text = match model {
        Some(m) => m.to_string(),
        None => String::new(),
    };
    let empty: Vec<Json> = Vec::new();
    proof {
        lemma_view_items_empty();
    }
    let mut e: Vec<(String, Json)> = Vec::new();
    e.push(("id".to_string(), Json::str_of("resp_helper_failed")));
    e.push(("object".to_string(), Json::str_of("response")));
    e.push(("created_at".to_string(), number_of_u64(created_at)));
    e.push(("status".to_string(), Json::str_of("failed")));
    e.push(("model".to_string(), Json::Str(model_text)));
    e.push(("output".to_string(), Json::Array(empty)));
    e.push(("error".to_string(), error));
    e.push(("usage".to_string(), crate::chat_to_responses::empty_usage_json()));
    let r = Json::Object(e);
    let ghost mv = match model {
        Some(m) => Some(m@),
        None => None,
    };
    let ghost tv = match error_type {
        Some(t) => Some(t@),
        None => None,
    };
    let ghost expected = failed_value_v(message@, tv, mv, created_at);
    assert(view_entries(e@) =~= crate::json::members_v(expected));
    assert(r@ == failed_value_v(message@, tv, mv, created_at));
    r
}

/// The failed response as JSON text.
pub fn responses_failed_json(
    message: &str,
    error_type: Option<&str>,
    model: Option<&str>,
    created_at: u64,
) -> (r: String)
    ensures
        r@ == canonical_v(
            failed_value_v(
                message@,
                match error_type {
                    Some(t) => Some(t@),
                    None => None,
                },
                match model {
                    Some(m) => Some(m@),
                    None => None,
                },
                created_at,
            ),
        ),
{
    canonical_json_string(&responses_failed_value(message, error_type, model, created_at))
}

/// The `response.failed` server-sent event for an error.
pub open spec fn failed_sse_v(
    message: Seq<char>,
    error_type: Option<Seq<char>>,
    model: Option<Seq<char>>,
    created_at: u64,
) -> Seq<char> {
    "event: response.failed\ndata: "@ + canonical_v(
        JsonV::Object(
            seq![
                ("type"@, JsonV::Str("response.failed"@)),
                ("response"@, failed_value_v(message, error_type, model, created_at)),
            ],
        ),
    ) + "\n\n"@
}

/// The failed response as one `response.failed` server-sent event.
pub fn responses_failed_sse(
    message: &str,
    error_type: Option<&str>,
    model: Option<&str>,
    created_at: u64,
) -> (r: String)
    ensures
        r@ == failed_sse_v(
            message@,
            match error_type {
                Some(t) => Some(t@),
                None => None,
            },
            match model {
                Some(m) => Some(m@),
                None => None,
            },
            created_at,
        ),
{
    let payload = object2(
        "type",
        Json::str_of("response.failed"),
        "response",
        responses_failed_value(message, error_type, model, created_at),
    );
    let data = canonical_json_string(&payload);
    concat3("event: response.failed\ndata: ", data.as_str(), "\n\n")
}

/// The text `String::from_utf8_lossy` decodes from bytes (invalid
/// sequences become U+FFFD).
pub uninterp spec fn utf8_lossy_v(bytes: Seq<u8>) -> Seq<char>;

/// `String::from_utf8_lossy`, as an owned string.
#[verifier::external_body]
fn utf8_lossy(bytes: &[u8]) -> (r: String)
    ensures
        r@ == utf8_lossy_v(bytes@),
{
    String::from_utf8_lossy(bytes).into_owned()
}

/// The bytes `<!DOC`.
pub open spec fn doctype_bytes() -> Seq<u8> {
    seq![60u8, 33u8, 68u8, 79u8, 67u8]
}

/// The bytes `<html`.
pub open spec fn html_bytes() -> Seq<u8> {
    seq![60u8, 104u8, 116u8, 109u8, 108u8]
}

/// The body looks like an HTML page: it starts with `<` or holds `<!DOC`
/// or `<html`.
pub open spec fn looks_like_html_v(bytes: Seq<u8>) -> bool {
    (bytes.len() > 0 && bytes[0] == 60u8) || exists|i: int|
        0 <= i && i + 5 <= bytes.len() && (#[trigger] bytes.subrange(i, i + 5) == doctype_bytes()
            || bytes.subrange(i, i + 5) == html_bytes())
}

fn window_is(bytes: &[u8], i: usize, w: &[u8; 5]) -> (r: bool)
    requires
        i + 5 <= bytes@.len(),
    ensures
        r == (bytes@.subrange(i as int, i + 5) == w@),
{
    let mut k: usize = 0;
    while k < 5
        invariant
            k <= 5,
            i + 5 <= bytes@.len(),
            bytes@.len() == bytes.len(),
            forall|m: int| 0 <= m < k ==> bytes@[i + m] == w@[m],
        decreases 5 - k,
    {
        if bytes[i + k] != w[k] {
            assert(bytes@.subrange(i as int, i + 5)[k as int] != w@[k as int]);
            return false;
        }
        k = k + 1;
    }
    assert(bytes@.subrange(i as int, i + 5) =~= w@);
    true
}

fn looks_like_html(bytes: &[u8]) -> (r: bool)
    ensures
        r == looks_like_html_v(bytes@),
{
    let n = bytes.len();
    if n > 0 && bytes[0] == 60u8 {
        return true;
    }
    if n < 5 {
        return false;
    }
    let doc: [u8; 5] = [60u8, 33u8, 68u8, 79u8, 67u8];
    let html: [u8; 5] = [60u8, 104u8, 116u8, 109u8, 108u8];
    assert(doc@ =~= doctype_bytes());
    assert(html@ =~= html_bytes());
    let mut i: usize = 0;
    while i <= n - 5
        invariant
            n == bytes@.len(),
            n == bytes.len(),
            5 <= n,
            i <= n - 4,
            doc@ == doctype_bytes(),
            html@ == html_bytes(),
            forall|k: int|
                0 <= k < i ==> !(#[trigger] bytes@.subrange(k, k + 5) == doctype_bytes()
                    || bytes@.subrange(k, k + 5) == html_bytes()),
        decreases n - i,
    {
        if window_is(bytes, i, &doc) || window_is(bytes, i, &html) {
            return true;
        }
        i = i + 1;
    }
    false
}

/// The message and type of an upstream error: from a JSON `error` object
/// (`message` or `detail`, `type` or `code`), or a top-level `message`;
/// otherwise a note for an empty body or an HTML page, or the first 500
/// characters of the body.
pub open spec fn upstream_error_v(bytes: Seq<u8>, parsed: Option<JsonV>) -> (Seq<char>, Option<Seq<char>>) {
    let from_json: Option<(Seq<char>, Option<Seq<char>>)> = match parsed {
        Some(v) => match get_v(v, "error"@) {
            Some(err) => Some(
                (
                    match either_v(err, "message"@, "detail"@) {
                        Some(JsonV::Str(s)) => s,
                        _ => canonical_v(err),
                    },
                    match either_v(err, "type"@, "code"@) {
                        Some(JsonV::Str(s)) => Some(s),
                        _ => None,
                    },
                ),
            ),
            None => match get_str_v(v, "message"@) {
                Some(m) => Some((m, get_str_v(v, "type"@))),
                None => None,
            },
        },
        None => None,
    };
    match from_json {
        Some(r) => r,
        None => if bytes.len() == 0 {
            ("上游响应体为空"@, Some("upstream_error"@))
        } else if looks_like_html_v(bytes) {
            (
                "上游返回了 HTML 页面，请确认 Base URL 是否应以 /v1 结尾，例如 http://host:8080/v1"@,
                Some("upstream_error"@),
            )
        } else {
            let text = utf8_lossy_v(bytes);
            (
                if text.len() <= 500 {
                    text
                } else {
                    text.take(500)
                },
                Some("upstream_error"@),
            )
        },
    }
}

fn str_member<'a>(j: &'a Json, k1: &str, k2: &str) -> (r: Option<&'a str>)
    ensures
        match either_v(j@, k1@, k2@) {
            Some(JsonV::Str(s)) => r is Some && r->0@ == s,
            _ => r is None,
        },
{
    let v = match j.get(k1) {
        Some(v) => Some(v),
        None => j.get(k2),
    };
    match v {
        Some(v) => v.as_str(),
        None => None,
    }
}

/// Reads the message and type of an upstream error body; `parsed` is the
/// body read as JSON, when it is JSON.
pub fn extract_upstream_error_message(bytes: &[u8], parsed: Option<&Json>) -> (r: (String, Option<String>))
    ensures
        r.0@ == upstream_error_v(
            bytes@,
            match parsed {
                Some(v) => Some(v@),
                None => None,
            },
        ).0,
        match upstream_error_v(
            bytes@,
            match parsed {
                Some(v) => Some(v@),
                None => None,
            },
        ).1 {
            Some(t) => r.1 is Some && r.1->0@ == t,
            None => r.1 is None,
        },
{
    match parsed {
        Some(value) => {
            match value.get("error") {
                Some(error) => {
                    let message = match str_member(error, "message", "detail") {
                        Some(m) => m.to_string(),
                        None => canonical_json_string(error),
                    };
                    let error_type = match str_member(error, "type", "code") {
                        Some(t) => Some(t.to_string()),
                        None => None,
                    };
                    return (message, error_type);
                },
                None => {},
            }
            match value.get_str("message") {
                Some(m) => {
                    let error_type = match value.get_str("type") {
                        Some(t) => Some(t.to_string()),
                        None => None,
                    };
                    return (m.to_string(), error_type);
                },
                None => {},
            }
        },
        None => {},
    }
    if bytes.len() == 0 {
        return ("上游响应体为空".to_string(), Some("upstream_error".to_string()));
    }
    if looks_like_html(bytes) {
        return (
            "上游返回了 HTML 页面，请确认 Base URL 是否应以 /v1 结尾，例如 http://host:8080/v1".to_string(),
            Some("upstream_error".to_string()),
        );
    }
    let text = utf8_lossy(bytes);
    let chars = chars_of(text.as_str());
    let n = if chars.len() <= 500 {
        chars.len()
    } else {
        500
    };
    let preview = string_of_range(&chars, 0, n);
    proof {
        if chars.len() <= 500 {
            assert(preview@ =~= text@);
        } else {
            assert(preview@ =~= text@.take(500));
        }
    }
    (preview, Some("upstream_error".to_string()))
}

} // verus!
