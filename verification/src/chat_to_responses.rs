//! A non-streaming Chat Completions response as a Responses API response.
use vstd::prelude::*;

use crate::builtin_tools::either_v;
use crate::canonical::{canonical_tool_arguments_v, canonicalize_tool_arguments};
use crate::codex_chat::{extract_reasoning_field_text, reasoning_field_v};
use crate::json::{
    deep_clone, get_array_v, get_str_v, get_v, lemma_view_items_empty, lemma_view_items_push,
    number_of_u64, number_u64_v, object1, object2, object3, set_v, view_items, Json, JsonV,
};
use crate::text::{
    concat2, contains_seq, decimal_seq, find, first_occurrence, join_seq, join_strings,
    starts_with, starts_with_seq, str_eq, string_of_range, trim, trim_seq, trim_start,
    trim_start_seq, u64_decimal, views,
};
use crate::tool_context::{
    response_tool_call_item_from_chat_name, tool_call_from_chat_name_v,
    response_tool_call_item_id_from_chat_name, tool_call_item_id_v, CodexToolContext,
};

verus! {

// ---------------------------------------------------------------------------
// Ids and status

/// The Responses id for a Chat completion id: kept when it already starts
/// with `resp_`, prefixed with `resp_` otherwise (`ccswitch` when missing).
pub open spec fn response_id_v(id: Option<Seq<char>>) -> Seq<char> {
    let id = match id {
        Some(i) => i,
        None => "ccswitch"@,
    };
    if starts_with_seq(id, "resp_"@) {
        id
    } else {
        "resp_"@ + id
    }
}

pub fn response_id_from_chat_id(id: Option<&str>) -> (r: String)
    ensures
        r@ == response_id_v(
            match id {
                Some(i) => Some(i@),
                None => None,
            },
        ),
{
    let id = match id {
        Some(i) => i,
        None => "ccswitch",
    };
    if starts_with(id, "resp_") {
        id.to_string()
    } else {
        concat2("resp_", id)
    }
}

/// The Responses status for a Chat finish reason: `incomplete` when cut by
/// the length limit, `completed` otherwise.
pub open spec fn status_v(finish_reason: Option<Seq<char>>) -> Seq<char> {
    if finish_reason == Some("length"@) {
        "incomplete"@
    } else {
        "completed"@
    }
}

pub fn response_status_from_finish_reason(finish_reason: Option<&str>) -> (r: &'static str)
    ensures
        r@ == status_v(
            match finish_reason {
                Some(f) => Some(f@),
                None => None,
            },
        ),
{
    match finish_reason {
        Some(f) => if str_eq(f, "length") {
            "incomplete"
        } else {
            "completed"
        },
        None => "completed",
    }
}

// ---------------------------------------------------------------------------
// Usage

/// A number member read as `u64`, from the first of two keys present.
pub open spec fn u64_either_v(j: JsonV, k1: Seq<char>, k2: Seq<char>) -> Option<u64> {
    match either_v(j, k1, k2) {
        Some(v) => number_u64_v(v),
        None => None,
    }
}

fn u64_either(j: &Json, k1: &str, k2: &str) -> (r: Option<u64>)
    ensures
        r == u64_either_v(j@, k1@, k2@),
{
    let v = match j.get(k1) {
        Some(v) => Some(v),
        None => j.get(k2),
    };
    match v {
        Some(v) => v.as_u64(),
        None => None,
    }
}

/// Input tokens of a Chat usage object (0 when absent).
pub open spec fn usage_in_v(u: JsonV) -> u64 {
    match u64_either_v(u, "prompt_tokens"@, "input_tokens"@) {
        Some(n) => n,
        None => 0,
    }
}

/// Output tokens of a Chat usage object (0 when absent).
pub open spec fn usage_out_v(u: JsonV) -> u64 {
    match u64_either_v(u, "completion_tokens"@, "output_tokens"@) {
        Some(n) => n,
        None => 0,
    }
}

/// The sum of input and output tokens of a usage object fits in `u64`
/// (the sum is always computed, as the fallback total).
pub open spec fn usage_sum_fits_v(usage: Option<JsonV>) -> bool {
    match usage {
        Some(u) => u is Object ==> usage_in_v(u) + usage_out_v(u) <= u64::MAX,
        None => true,
    }
}

/// Whether the input and output tokens of a body's `usage` member add up
/// within `u64`.
pub fn usage_sum_fits(body: &Json) -> (r: bool)
    ensures
        r == usage_sum_fits_v(get_v(body@, "usage"@)),
{
    match body.get("usage") {
        Some(u) => {
            if !u.is_object() {
                return true;
            }
            let i = match u64_either(u, "prompt_tokens", "input_tokens") {
                Some(n) => n,
                None => 0,
            };
            let o = match u64_either(u, "completion_tokens", "output_tokens") {
                Some(n) => n,
                None => 0,
            };
            i <= u64::MAX - o
        },
        None => true,
    }
}

/// A decimal number.
pub open spec fn num_v(n: nat) -> JsonV {
    JsonV::Number(decimal_seq(n))
}

/// The usage reported when a response has none.
pub open spec fn empty_usage_v() -> JsonV {
    JsonV::Object(
        seq![
            ("input_tokens"@, num_v(0)),
            ("output_tokens"@, num_v(0)),
            ("total_tokens"@, num_v(0)),
            ("output_tokens_details"@, JsonV::Object(seq![("reasoning_tokens"@, num_v(0))])),
        ],
    )
}

/// A member of a member.
pub open spec fn get2_v(j: JsonV, a: Seq<char>, b: Seq<char>) -> Option<JsonV> {
    match get_v(j, a) {
        Some(x) => get_v(x, b),
        None => None,
    }
}

/// Cached input tokens, from `prompt_tokens_details` or
/// `input_tokens_details`.
pub open spec fn usage_cached_v(u: JsonV) -> Option<u64> {
    let f = match get2_v(u, "prompt_tokens_details"@, "cached_tokens"@) {
        Some(v) => Some(v),
        None => get2_v(u, "input_tokens_details"@, "cached_tokens"@),
    };
    match f {
        Some(v) => number_u64_v(v),
        None => None,
    }
}

/// Output token details: the Chat details object with `reasoning_tokens`
/// added as 0 when missing, or just that.
pub open spec fn output_details_v(u: JsonV) -> JsonV {
    match get_v(u, "completion_tokens_details"@) {
        Some(d) => if d is Object {
            if get_v(d, "reasoning_tokens"@) is None {
                set_v(d, "reasoning_tokens"@, num_v(0))
            } else {
                d
            }
        } else {
            JsonV::Object(seq![("reasoning_tokens"@, num_v(0))])
        },
        None => JsonV::Object(seq![("reasoning_tokens"@, num_v(0))]),
    }
}

/// `j` with member `key` copied from `source` when present.
pub open spec fn copy_v(j: JsonV, source: JsonV, key: Seq<char>) -> JsonV {
    match get_v(source, key) {
        Some(v) => set_v(j, key, v),
        None => j,
    }
}

/// Chat usage as Responses usage.
pub open spec fn usage_v(usage: Option<JsonV>) -> JsonV {
    match usage {
        Some(u) => if u is Object {
            let input = usage_in_v(u);
            let output = usage_out_v(u);
            let total: nat = match get_v(u, "total_tokens"@) {
                Some(v) => match number_u64_v(v) {
                    Some(t) => t as nat,
                    None => (input + output) as nat,
                },
                None => (input + output) as nat,
            };
            let r0 = JsonV::Object(
                seq![
                    ("input_tokens"@, num_v(input as nat)),
                    ("output_tokens"@, num_v(output as nat)),
                    ("total_tokens"@, num_v(total)),
                ],
            );
            let r1 = match usage_cached_v(u) {
                Some(c) => set_v(
                    r0,
                    "input_tokens_details"@,
                    JsonV::Object(seq![("cached_tokens"@, num_v(c as nat))]),
                ),
                None => r0,
            };
            let r2 = set_v(r1, "output_tokens_details"@, output_details_v(u));
            copy_v(copy_v(r2, u, "cache_read_input_tokens"@), u, "cache_creation_input_tokens"@)
        } else {
            empty_usage_v()
        },
        None => empty_usage_v(),
    }
}

fn zero() -> (r: Json)
    ensures
        r@ == num_v(0),
{
    number_of_u64(0)
}

pub fn empty_usage_json() -> (r: Json)
    ensures
        r@ == empty_usage_v(),
{
    let mut e: Vec<(String, Json)> = Vec::new();
    e.push(("input_tokens".to_string(), zero()));
    e.push(("output_tokens".to_string(), zero()));
    e.push(("total_tokens".to_string(), zero()));
    e.push(("output_tokens_details".to_string(), object1("reasoning_tokens", zero())));
    assert(crate::json::view_entries(e@) =~= seq![
        ("input_tokens"@, num_v(0)),
        ("output_tokens"@, num_v(0)),
        ("total_tokens"@, num_v(0)),
        ("output_tokens_details"@, JsonV::Object(seq![("reasoning_tokens"@, num_v(0))])),
    ]);
    Json::Object(e)
}

/// Converts Chat usage to Responses usage.
pub fn chat_usage_to_responses_usage(usage: Option<&Json>) -> (r: Json)
    requires
        usage_sum_fits_v(
            match usage {
                Some(u) => Some(u@),
                None => None,
            },
        ),
    ensures
        r@ == usage_v(
            match usage {
                Some(u) => Some(u@),
                None => None,
            },
        ),
{
    let u = match usage {
        Some(u) => if u.is_object() {
            u
        } else {
            return empty_usage_json();
        },
        None => {
            return empty_usage_json();
        },
    };
    let input = match u64_either(u, "prompt_tokens", "input_tokens") {
        Some(n) => n,
        None => 0,
    };
    let output = match u64_either(u, "completion_tokens", "output_tokens") {
        Some(n) => n,
        None => 0,
    };
    let sum = input + output;
    let total = match u.get("total_tokens") {
        Some(v) => match v.as_u64() {
            Some(t) => t,
            None => sum,
        },
        None => sum,
    };
    let mut result = object3(
        "input_tokens",
        number_of_u64(input),
        "output_tokens",
        number_of_u64(output),
        "total_tokens",
        number_of_u64(total),
    );
    let cached_field = match u.get("prompt_tokens_details") {
        Some(d) => d.get("cached_tokens"),
        None => None,
    };
    let cached_field = match cached_field {
        Some(v) => Some(v),
        None => match u.get("input_tokens_details") {
            Some(d) => d.get("cached_tokens"),
            None => None,
        },
    };
    let cached = match cached_field {
        Some(v) => v.as_u64(),
        None => None,
    };
    match cached {
        Some(c) => {
            result.set("input_tokens_details", object1("cached_tokens", number_of_u64(c)));
        },
        None => {},
    }
    let details = match u.get("completion_tokens_details") {
        Some(d) => if d.is_object() {
            let mut d = deep_clone(d);
            if d.get("reasoning_tokens").is_none() {
                d.set("reasoning_tokens", zero());
            }
            d
        } else {
            object1("reasoning_tokens", zero())
        },
        None => object1("reasoning_tokens", zero()),
    };
    result.set("output_tokens_details", details);
    match u.get("cache_read_input_tokens") {
        Some(v) => result.set("cache_read_input_tokens", deep_clone(v)),
        None => {},
    }
    match u.get("cache_creation_input_tokens") {
        Some(v) => result.set("cache_creation_input_tokens", deep_clone(v)),
        None => {},
    }
    result
}

// ---------------------------------------------------------------------------
// Leading think blocks

/// The reasoning and answer of a text that starts (after leading
/// whitespace) with a `<think>` block closed by `</think>`, both trimmed.
pub open spec fn think_split_v(content: Seq<char>) -> Option<(Seq<char>, Seq<char>)> {
    let t = trim_start_seq(content);
    if starts_with_seq(t, "<think>"@) {
        let rest = t.skip(7);
        if contains_seq(rest, "</think>"@) {
            let k = choose|k: int| first_occurrence(rest, "</think>"@, k);
            Some((trim_seq(rest.take(k)), trim_seq(rest.skip(k + 8))))
        } else {
            None
        }
    } else {
        None
    }
}

proof fn lemma_first_occurrence_unique(hay: Seq<char>, needle: Seq<char>, i: int, j: int)
    requires
        first_occurrence(hay, needle, i),
        first_occurrence(hay, needle, j),
    ensures
        i == j,
{
    if i < j {
        assert(!crate::text::occurs_at(hay, needle, i));
    }
    if j < i {
        assert(!crate::text::occurs_at(hay, needle, j));
    }
}

/// Splits a leading `<think>...</think>` block off a text.
pub fn split_leading_think_block(content: &str) -> (r: Option<(String, String)>)
    ensures
        match think_split_v(content@) {
            Some((a, b)) => r matches Some(p) && p.0@ == a && p.1@ == b,
            None => r is None,
        },
{
    proof {
        reveal_strlit("<think>");
        reveal_strlit("</think>");
    }
    let t = trim_start(content);
    if !starts_with(t.as_str(), "<think>") {
        return None;
    }
    let chars = crate::text::chars_of(t.as_str());
    let rest = string_of_range(&chars, 7, chars.len());
    proof {
        assert(rest@ =~= t@.skip(7));
    }
    match find(rest.as_str(), "</think>") {
        Some(k) => {
            proof {
                let c = choose|c: int| first_occurrence(rest@, "</think>"@, c);
                assert(first_occurrence(rest@, "</think>"@, k as int));
                lemma_first_occurrence_unique(rest@, "</think>"@, c, k as int);
            }
            let rc = crate::text::chars_of(rest.as_str());
            let before = string_of_range(&rc, 0, k);
            let after = string_of_range(&rc, k + 8, rc.len());
            proof {
                assert(before@ =~= rest@.take(k as int));
                assert(after@ =~= rest@.skip(k + 8));
            }
            Some((trim(before.as_str()), trim(after.as_str())))
        },
        None => None,
    }
}

// ---------------------------------------------------------------------------
// Output items

/// The reasoning of a Chat message: its `reasoning_content`, or a non-empty
/// leading think block of its text content.
pub open spec fn chat_reasoning_v(message: JsonV) -> Option<Seq<char>> {
    match reasoning_field_v(message) {
        Some(r) => Some(r),
        None => match get_str_v(message, "content"@) {
            Some(c) => match think_split_v(c) {
                Some((r, _)) => if r.len() > 0 {
                    Some(r)
                } else {
                    None
                },
                None => None,
            },
            None => None,
        },
    }
}

fn chat_reasoning_text(message: &Json) -> (r: Option<String>)
    ensures
        opt_str_v(r) == chat_reasoning_v(message@),
{
    match extract_reasoning_field_text(message) {
        Some(r) => {
            return Some(r);
        },
        None => {},
    }
    match message.get_str("content") {
        Some(c) => match split_leading_think_block(c) {
            Some((r, _)) => if !r.as_str().is_empty() {
                Some(r)
            } else {
                None
            },
            None => None,
        },
        None => None,
    }
}

/// The view of an optional string.
pub open spec fn opt_str_v(o: Option<String>) -> Option<Seq<char>> {
    match o {
        Some(s) => Some(s@),
        None => None,
    }
}

/// The reasoning output item for non-empty reasoning.
pub open spec fn reasoning_item_v(reasoning: Option<Seq<char>>, response_id: Seq<char>) -> Option<JsonV> {
    match reasoning {
        Some(r) => if r.len() > 0 {
            Some(
                JsonV::Object(
                    seq![
                        ("id"@, JsonV::Str("rs_"@ + response_id)),
                        ("type"@, JsonV::Str("reasoning"@)),
                        ("summary"@, JsonV::Array(
                            seq![
                                JsonV::Object(
                                    seq![
                                        ("type"@, JsonV::Str("summary_text"@)),
                                        ("text"@, JsonV::Str(r)),
                                    ],
                                ),
                            ],
                        )),
                    ],
                ),
            )
        } else {
            None
        },
        None => None,
    }
}

fn chat_reasoning_to_response_output_item(reasoning: Option<&str>, response_id: &str) -> (r: Option<Json>)
    ensures
        match reasoning_item_v(
            match reasoning {
                Some(t) => Some(t@),
                None => None,
            },
            response_id@,
        ) {
            Some(v) => r is Some && r->0@ == v,
            None => r is None,
        },
{
    let reasoning = match reasoning {
        Some(r) => r,
        None => {
            return None;
        },
    };
    if reasoning.is_empty() {
        return None;
    }
    let part = object2("type", Json::str_of("summary_text"), "text", Json::str_of(reasoning));
    let mut parts: Vec<Json> = Vec::new();
    parts.push(part);
    proof {
        assert(view_items(parts@) =~= seq![parts@[0]@]);
    }
    Some(object3(
        "id",
        Json::Str(concat2("rs_", response_id)),
        "type",
        Json::str_of("reasoning"),
        "summary",
        Json::Array(parts),
    ))
}

/// An `output_text` content part.
pub open spec fn output_text_part_v(t: Seq<char>) -> JsonV {
    JsonV::Object(
        seq![
            ("type"@, JsonV::Str("output_text"@)),
            ("text"@, JsonV::Str(t)),
            ("annotations"@, JsonV::Array(Seq::empty())),
        ],
    )
}

/// A `refusal` content part.
pub open spec fn refusal_part_v(t: Seq<char>) -> JsonV {
    JsonV::Object(seq![("type"@, JsonV::Str("refusal"@)), ("refusal"@, JsonV::Str(t))])
}

/// A non-empty string member.
pub open spec fn nonempty_v(j: JsonV, key: Seq<char>) -> Option<Seq<char>> {
    match get_str_v(j, key) {
        Some(t) => if t.len() > 0 {
            Some(t)
        } else {
            None
        },
        None => None,
    }
}

/// The Responses part for a Chat content part, if any.
pub open spec fn content_part_v(part: JsonV) -> Option<JsonV> {
    let t = crate::chat_content::part_type_v(part);
    if t == "text"@ || t == "output_text"@ {
        match nonempty_v(part, "text"@) {
            Some(s) => Some(output_text_part_v(s)),
            None => None,
        }
    } else if t == "refusal"@ {
        match nonempty_v(part, "refusal"@) {
            Some(s) => Some(refusal_part_v(s)),
            None => None,
        }
    } else {
        None
    }
}

/// The Responses parts for Chat content parts, in order.
pub open spec fn content_parts_v(parts: Seq<JsonV>) -> Seq<JsonV>
    decreases parts.len(),
{
    if parts.len() == 0 {
        Seq::empty()
    } else {
        let r = content_parts_v(parts.drop_last());
        match content_part_v(parts.last()) {
            Some(p) => r.push(p),
            None => r,
        }
    }
}

/// The content parts of the message output item: the answer text (without
/// a leading think block) or the converted parts, then a refusal.
pub open spec fn message_content_parts_v(message: JsonV) -> Seq<JsonV> {
    let base = match get_v(message, "content"@) {
        Some(JsonV::Str(text)) => {
            let answer = match think_split_v(text) {
                Some((_, a)) => a,
                None => text,
            };
            if answer.len() > 0 {
                seq![output_text_part_v(answer)]
            } else {
                Seq::empty()
            }
        },
        Some(JsonV::Array(parts)) => content_parts_v(parts),
        _ => Seq::empty(),
    };
    match nonempty_v(message, "refusal"@) {
        Some(r) => base.push(refusal_part_v(r)),
        None => base,
    }
}

/// Law: a text made of white space, `<think>`, a reasoning `r` without
/// `</think>`, `</think>` and an answer `a` splits into `r` and `a`, each
/// trimmed.
pub proof fn lemma_think_split_of_block(ws: Seq<char>, r: Seq<char>, a: Seq<char>)
    requires
        forall|i: int| 0 <= i < ws.len() ==> crate::text::is_white(#[trigger] ws[i]),
        !contains_seq(r, "</think>"@),
    ensures
        think_split_v(ws + "<think>"@ + r + "</think>"@ + a) == Some((trim_seq(r), trim_seq(a))),
{
    reveal_strlit("<think>");
    reveal_strlit("</think>");
    let open_tag: Seq<char> = "<think>"@;
    let close_tag: Seq<char> = "</think>"@;
    assert(open_tag.len() == 7 && close_tag.len() == 8 && open_tag[0] == '<' && close_tag[0] == '<');
    let body = open_tag + r + close_tag + a;
    let t = ws + body;
    assert(t == ws + "<think>"@ + r + "</think>"@ + a) by {
        assert(t =~= ws + "<think>"@ + r + "</think>"@ + a);
    }
    assert(t[ws.len() as int] == '<');
    assert forall|k: int| 0 <= k < ws.len() implies crate::text::is_white(#[trigger] t[k]) by {
        assert(t[k] == ws[k]);
    }
    crate::text::lemma_trim_start_suffix(t, ws.len() as int);
    assert(t.subrange(ws.len() as int, t.len() as int) =~= body);
    assert(trim_start_seq(t) == body);
    assert(body.subrange(0, 7) =~= open_tag);
    let rest = body.skip(7);
    assert(rest =~= r + close_tag + a);
    let n = r.len() as int;
    assert(rest.subrange(n, n + 8) =~= close_tag);
    assert(crate::text::occurs_at(rest, close_tag, n));
    assert forall|k: int| 0 <= k < n implies !crate::text::occurs_at(rest, close_tag, k) by {
        if crate::text::occurs_at(rest, close_tag, k) {
            if k + 8 <= n {
                assert(r.subrange(k, k + 8) =~= rest.subrange(k, k + 8));
                assert(crate::text::occurs_at(r, close_tag, k));
            } else {
                let d = n - k;
                assert(1 <= d <= 7);
                assert(rest[n] == '<');
                assert(rest.subrange(k, k + 8)[d] == rest[n]);
                assert(close_tag[d] != '<');
            }
        }
    }
    assert(crate::text::first_occurrence(rest, close_tag, n));
    let c = choose|c: int| crate::text::first_occurrence(rest, "</think>"@, c);
    lemma_first_occurrence_unique(rest, close_tag, c, n);
    assert(rest.take(n) =~= r);
    assert(rest.skip(n + 8) =~= a);
}

/// Law: when a Chat message's text starts (after white space) with a
/// `<think>` block, the Responses message item carries only the answer
/// after `</think>`: its first part is that answer when it is not empty,
/// and no text part of the item holds anything else; the block itself is
/// the reasoning, unless the message has its own reasoning field.
pub proof fn lemma_think_block_stays_out_of_the_answer(
    message: JsonV,
    response_id: Seq<char>,
    t: Seq<char>,
    reasoning: Seq<char>,
    answer: Seq<char>,
)
    requires
        get_v(message, "content"@) == Some(JsonV::Str(t)),
        think_split_v(t) == Some((reasoning, answer)),
    ensures
        answer.len() > 0 ==> message_item_v(message, response_id) is Some && get_v(
            message_item_v(message, response_id)->0,
            "content"@,
        ) == Some(JsonV::Array(message_content_parts_v(message)))
            && message_content_parts_v(message)[0] == output_text_part_v(answer),
        forall|i: int|
            0 <= i < message_content_parts_v(message).len() && get_str_v(
                #[trigger] message_content_parts_v(message)[i],
                "type"@,
            ) == Some("output_text"@) ==> message_content_parts_v(message)[i] == output_text_part_v(answer),
        reasoning_field_v(message) is None && reasoning.len() > 0 ==> chat_reasoning_v(message) == Some(
            reasoning,
        ),
{
    reveal_strlit("type");
    reveal_strlit("output_text");
    reveal_strlit("refusal");
    reveal_strlit("content");
    reveal_strlit("id");
    reveal_strlit("status");
    reveal_strlit("role");
    assert("output_text"@.len() == 11 && "refusal"@.len() == 7);
    assert("content"@.len() == 7 && "id"@.len() == 2 && "type"@.len() == 4 && "status"@.len() == 6
        && "role"@.len() == 4);
    assert("role"@[0] != "content"@[0]);
    let parts = message_content_parts_v(message);
    let base: Seq<JsonV> = if answer.len() > 0 {
        seq![output_text_part_v(answer)]
    } else {
        Seq::empty()
    };
    let rf = seq![("type"@, JsonV::Str("refusal"@)), ("refusal"@, JsonV::Str(Seq::empty()))];
    assert(crate::json::first_key_at(rf, "type"@, 0));
    crate::json::lemma_key_index(rf, "type"@);
    let ot = seq![
        ("type"@, JsonV::Str("output_text"@)),
        ("text"@, JsonV::Str(answer)),
        ("annotations"@, JsonV::Array(Seq::empty())),
    ];
    assert(crate::json::first_key_at(ot, "type"@, 0));
    crate::json::lemma_key_index(ot, "type"@);
    match nonempty_v(message, "refusal"@) {
        Some(r) => {
            assert(parts == base.push(refusal_part_v(r)));
            let re = seq![("type"@, JsonV::Str("refusal"@)), ("refusal"@, JsonV::Str(r))];
            assert(crate::json::first_key_at(re, "type"@, 0));
            crate::json::lemma_key_index(re, "type"@);
            assert(get_str_v(refusal_part_v(r), "type"@) == Some("refusal"@));
        },
        None => {
            assert(parts == base);
        },
    }
    if answer.len() > 0 {
        let item = message_item_v(message, response_id)->0;
        let e = seq![
            ("id"@, JsonV::Str(response_id + "_msg"@)),
            ("type"@, JsonV::Str("message"@)),
            ("status"@, JsonV::Str("completed"@)),
            ("role"@, JsonV::Str("assistant"@)),
            ("content"@, JsonV::Array(parts)),
        ];
        assert(item == JsonV::Object(e));
        assert(crate::json::first_key_at(e, "content"@, 4));
        crate::json::lemma_key_index(e, "content"@);
    }
}

/// Law: for a Chat message whose text is white space, `<think>`, a
/// reasoning `r` without `</think>`, `</think>` and an answer `a`, every
/// text part of the Responses message item is the trimmed answer (the first
/// part when that is not empty), and the trimmed `r` is the reasoning
/// unless the message has its own reasoning field.
pub proof fn lemma_message_answer_after_think_block(
    message: JsonV,
    response_id: Seq<char>,
    ws: Seq<char>,
    r: Seq<char>,
    a: Seq<char>,
)
    requires
        get_v(message, "content"@) == Some(JsonV::Str(ws + "<think>"@ + r + "</think>"@ + a)),
        forall|i: int| 0 <= i < ws.len() ==> crate::text::is_white(#[trigger] ws[i]),
        !contains_seq(r, "</think>"@),
    ensures
        trim_seq(a).len() > 0 ==> message_item_v(message, response_id) is Some
            && message_content_parts_v(message)[0] == output_text_part_v(trim_seq(a)),
        forall|i: int|
            0 <= i < message_content_parts_v(message).len() && get_str_v(
                #[trigger] message_content_parts_v(message)[i],
                "type"@,
            ) == Some("output_text"@) ==> message_content_parts_v(message)[i] == output_text_part_v(
                trim_seq(a),
            ),
        reasoning_field_v(message) is None && trim_seq(r).len() > 0 ==> chat_reasoning_v(message)
            == Some(trim_seq(r)),
{
    let t = ws + "<think>"@ + r + "</think>"@ + a;
    lemma_think_split_of_block(ws, r, a);
    lemma_think_block_stays_out_of_the_answer(message, response_id, t, trim_seq(r), trim_seq(a));
}

/// The message output item, when the message has any content.
pub open spec fn message_item_v(message: JsonV, response_id: Seq<char>) -> Option<JsonV> {
    let content = message_content_parts_v(message);
    if content.len() == 0 {
        None
    } else {
        Some(
            JsonV::Object(
                seq![
                    ("id"@, JsonV::Str(response_id + "_msg"@)),
                    ("type"@, JsonV::Str("message"@)),
                    ("status"@, JsonV::Str("completed"@)),
                    ("role"@, JsonV::Str("assistant"@)),
                    ("content"@, JsonV::Array(content)),
                ],
            ),
        )
    }
}

fn output_text_part(t: String) -> (r: Json)
    ensures
        r@ == output_text_part_v(t@),
{
    let e: Vec<Json> = Vec::new();
    proof {
        lemma_view_items_empty();
    }
    object3("type", Json::str_of("output_text"), "text", Json::Str(t), "annotations", Json::Array(e))
}

fn refusal_part(t: String) -> (r: Json)
    ensures
        r@ == refusal_part_v(t@),
{
    object2("type", Json::str_of("refusal"), "refusal", Json::Str(t))
}

fn content_part(part: &Json) -> (r: Option<Json>)
    ensures
        match content_part_v(part@) {
            Some(p) => r is Some && r->0@ == p,
            None => r is None,
        },
{
    let t = crate::chat_content::part_type(part);
    if str_eq(t, "text") || str_eq(t, "output_text") {
        match part.get_str("text") {
            Some(s) => if !s.is_empty() {
                Some(output_text_part(s.to_string()))
            } else {
                None
            },
            None => None,
        }
    } else if str_eq(t, "refusal") {
        match part.get_str("refusal") {
            Some(s) => if !s.is_empty() {
                Some(refusal_part(s.to_string()))
            } else {
                None
            },
            None => None,
        }
    } else {
        None
    }
}

fn push_item(v: &mut Vec<Json>, item: Json)
    ensures
        view_items(final(v)@) == view_items(old(v)@).push(item@),
{
    let ghost before = v@;
    v.push(item);
    proof {
        lemma_view_items_push(before, v@.last());
        assert(v@ =~= before.push(v@.last()));
    }
}

fn message_content_parts(message: &Json) -> (r: Vec<Json>)
    ensures
        view_items(r@) == message_content_parts_v(message@),
{
    let mut content: Vec<Json> = Vec::new();
    proof {
        lemma_view_items_empty();
    }
    match message.get("content") {
        Some(Json::Str(text)) => {
            let answer = match split_leading_think_block(text.as_str()) {
                Some((_, a)) => a,
                None => text.clone(),
            };
            if !answer.as_str().is_empty() {
                push_item(&mut content, output_text_part(answer));
                proof {
                    assert(view_items(content@) =~= seq![view_items(content@)[0]]);
                }
            }
        },
        Some(Json::Array(parts)) => {
            let ghost pv = view_items(parts@);
            let mut i: usize = 0;
            proof {
                assert(pv.take(0) =~= Seq::<JsonV>::empty());
            }
            while i < parts.len()
                invariant
                    i <= parts.len(),
                    pv == view_items(parts@),
                    view_items(content@) == content_parts_v(pv.take(i as int)),
                decreases parts.len() - i,
            {
                proof {
                    assert(pv.take(i + 1).drop_last() =~= pv.take(i as int));
                    assert(pv.take(i + 1).last() == pv[i as int]);
                }
                match content_part(&parts[i]) {
                    Some(p) => push_item(&mut content, p),
                    None => {},
                }
                i = i + 1;
            }
            proof {
                assert(pv.take(parts.len() as int) =~= pv);
            }
        },
        _ => {},
    }
    match message.get_str("refusal") {
        Some(r) => if !r.is_empty() {
            push_item(&mut content, refusal_part(r.to_string()));
        },
        None => {},
    }
    content
}

fn chat_message_to_response_output_item(message: &Json, response_id: &str) -> (r: Option<Json>)
    ensures
        match message_item_v(message@, response_id@) {
            Some(v) => r is Some && r->0@ == v,
            None => r is None,
        },
{
    let content = message_content_parts(message);
    if content.len() == 0 {
        return None;
    }
    let mut e: Vec<(String, Json)> = Vec::new();
    e.push(("id".to_string(), Json::Str(concat2(response_id, "_msg"))));
    e.push(("type".to_string(), Json::str_of("message")));
    e.push(("status".to_string(), Json::str_of("completed")));
    e.push(("role".to_string(), Json::str_of("assistant")));
    e.push(("content".to_string(), Json::Array(content)));
    let r = Json::Object(e);
    assert(crate::json::view_entries(e@) =~= seq![
        ("id"@, JsonV::Str(response_id@ + "_msg"@)),
        ("type"@, JsonV::Str("message"@)),
        ("status"@, JsonV::Str("completed"@)),
        ("role"@, JsonV::Str("assistant"@)),
        ("content"@, JsonV::Array(message_content_parts_v(message@))),
    ]);
    Some(r)
}

/// The call id of the tool call at `index`: its non-empty `id`, or
/// `call_<index>`.
pub open spec fn tool_call_id_v(tool_call: JsonV, index: nat) -> Seq<char> {
    match nonempty_v(tool_call, "id"@) {
        Some(id) => id,
        None => "call_"@ + decimal_seq(index),
    }
}

/// A member's text, or empty.
pub open spec fn text_or_empty_v(j: JsonV, key: Seq<char>) -> Seq<char> {
    match get_str_v(j, key) {
        Some(s) => s,
        None => Seq::empty(),
    }
}

/// The function of a Chat tool call (null when missing).
pub open spec fn function_of_v(tool_call: JsonV) -> JsonV {
    match get_v(tool_call, "function"@) {
        Some(f) => f,
        None => JsonV::Null,
    }
}

/// The `function_call` output item for the Chat tool call at `index`.
pub open spec fn tool_call_item_v(
    tool_call: JsonV,
    index: nat,
    reasoning: Option<Seq<char>>,
    customs: Seq<Seq<char>>,
) -> JsonV {
    let id = tool_call_id_v(tool_call, index);
    let f = function_of_v(tool_call);
    tool_call_from_chat_name_v(
        tool_call_item_id_v(id),
        "completed"@,
        id,
        text_or_empty_v(f, "name"@),
        canonical_tool_arguments_v(get_v(f, "arguments"@)),
        reasoning,
        customs,
    )
}

/// The `function_call` item for a legacy Chat `function_call`.
pub open spec fn legacy_call_item_v(
    function_call: JsonV,
    reasoning: Option<Seq<char>>,
    customs: Seq<Seq<char>>,
) -> JsonV {
    let id = match nonempty_v(function_call, "id"@) {
        Some(i) => i,
        None => "call_0"@,
    };
    tool_call_from_chat_name_v(
        tool_call_item_id_v(id),
        "completed"@,
        id,
        text_or_empty_v(function_call, "name"@),
        canonical_tool_arguments_v(get_v(function_call, "arguments"@)),
        reasoning,
        customs,
    )
}

/// The output items for a Chat message's tool calls (or its legacy
/// function call).
pub open spec fn tool_call_items_v(
    message: JsonV,
    reasoning: Option<Seq<char>>,
    customs: Seq<Seq<char>>,
) -> Seq<JsonV> {
    match get_array_v(message, "tool_calls"@) {
        Some(calls) => Seq::new(
            calls.len(),
            |i: int| tool_call_item_v(calls[i], i as nat, reasoning, customs),
        ),
        None => match get_v(message, "function_call"@) {
            Some(fc) => seq![legacy_call_item_v(fc, reasoning, customs)],
            None => Seq::empty(),
        },
    }
}

fn text_or_empty(j: &Json, key: &str) -> (r: String)
    ensures
        r@ == text_or_empty_v(j@, key@),
{
    match j.get_str(key) {
        Some(s) => s.to_string(),
        None => String::new(),
    }
}

fn chat_tool_call_to_response_item(
    tool_call: &Json,
    index: usize,
    reasoning: Option<&str>,
    tool_context: &CodexToolContext,
) -> (r: Json)
    ensures
        r@ == tool_call_item_v(
            tool_call@,
            index as nat,
            match reasoning {
                Some(t) => Some(t@),
                None => None,
            },
            tool_context.custom_tool_names(),
        ),
{
    let call_id = match tool_call.get_str("id") {
        Some(id) => if !id.is_empty() {
            id.to_string()
        } else {
            concat2("call_", u64_decimal(index as u64).as_str())
        },
        None => concat2("call_", u64_decimal(index as u64).as_str()),
    };
    let null = Json::Null;
    let function = match tool_call.get("function") {
        Some(f) => f,
        None => &null,
    };
    let name = text_or_empty(function, "name");
    let arguments = canonicalize_tool_arguments(function.get("arguments"));
    let item_id = response_tool_call_item_id_from_chat_name(call_id.as_str(), name.as_str(), tool_context);
    response_tool_call_item_from_chat_name(
        item_id.as_str(),
        "completed",
        call_id.as_str(),
        name.as_str(),
        arguments.as_str(),
        reasoning,
        tool_context,
    )
}

fn chat_legacy_function_call_to_response_item(
    function_call: &Json,
    reasoning: Option<&str>,
    tool_context: &CodexToolContext,
) -> (r: Json)
    ensures
        r@ == legacy_call_item_v(
            function_call@,
            match reasoning {
                Some(t) => Some(t@),
                None => None,
            },
            tool_context.custom_tool_names(),
        ),
{
    let call_id = match function_call.get_str("id") {
        Some(id) => if !id.is_empty() {
            id.to_string()
        } else {
            "call_0".to_string()
        },
        None => "call_0".to_string(),
    };
    let name = text_or_empty(function_call, "name");
    let arguments = canonicalize_tool_arguments(function_call.get("arguments"));
    let item_id = response_tool_call_item_id_from_chat_name(call_id.as_str(), name.as_str(), tool_context);
    response_tool_call_item_from_chat_name(
        item_id.as_str(),
        "completed",
        call_id.as_str(),
        name.as_str(),
        arguments.as_str(),
        reasoning,
        tool_context,
    )
}

fn chat_tool_calls_to_response_output_items(
    message: &Json,
    reasoning: Option<&str>,
    tool_context: &CodexToolContext,
) -> (r: Vec<Json>)
    ensures
        view_items(r@) == tool_call_items_v(
            message@,
            match reasoning {
                Some(t) => Some(t@),
                None => None,
            },
            tool_context.custom_tool_names(),
        ),
{
    let ghost rv = match reasoning {
        Some(t) => Some(t@),
        None => None,
    };
    let mut out: Vec<Json> = Vec::new();
    proof {
        lemma_view_items_empty();
    }
    match message.get_array("tool_calls") {
        Some(calls) => {
            let ghost cv = view_items(calls@);
            let mut i: usize = 0;
            while i < calls.len()
                invariant
                    i <= calls.len(),
                    cv == view_items(calls@),
                    rv == match reasoning {
                        Some(t) => Some(t@),
                        None => None,
                    },
                    out.len() == i,
                    forall|k: int| 0 <= k < i ==> (#[trigger] out@[k])@ == tool_call_item_v(
                        cv[k],
                        k as nat,
                        rv,
                        tool_context.custom_tool_names(),
                    ),
                decreases calls.len() - i,
            {
                out.push(chat_tool_call_to_response_item(&calls[i], i, reasoning, tool_context));
                i = i + 1;
            }
            assert(view_items(out@) =~= Seq::new(
                cv.len(),
                |k: int| tool_call_item_v(cv[k], k as nat, rv, tool_context.custom_tool_names()),
            ));
        },
        None => match message.get("function_call") {
            Some(fc) => {
                push_item(&mut out, chat_legacy_function_call_to_response_item(fc, reasoning, tool_context));
                proof {
                    assert(view_items(out@) =~= seq![view_items(out@)[0]]);
                }
            },
            None => {},
        },
    }
    out
}

/// The first content part text of each message item, in order.
pub open spec fn output_texts_v(items: Seq<JsonV>) -> Seq<Seq<char>>
    decreases items.len(),
{
    if items.len() == 0 {
        Seq::empty()
    } else {
        let r = output_texts_v(items.drop_last());
        let item = items.last();
        if get_str_v(item, "type"@) == Some("message"@) {
            match get_array_v(item, "content"@) {
                Some(parts) => if parts.len() > 0 {
                    match get_str_v(parts[0], "text"@) {
                        Some(t) => r.push(t),
                        None => r,
                    }
                } else {
                    r
                },
                None => r,
            }
        } else {
            r
        }
    }
}

fn output_text_from_items(output: &Vec<Json>) -> (r: String)
    ensures
        r@ == join_seq(output_texts_v(view_items(output@)), seq!['\n']),
{
    let ghost ov = view_items(output@);
    let mut texts: Vec<String> = Vec::new();
    let mut i: usize = 0;
    proof {
        assert(ov.take(0) =~= Seq::<JsonV>::empty());
        assert(views(texts@) =~= Seq::<Seq<char>>::empty());
    }
    while i < output.len()
        invariant
            i <= output.len(),
            ov == view_items(output@),
            views(texts@) == output_texts_v(ov.take(i as int)),
        decreases output.len() - i,
    {
        proof {
            assert(ov.take(i + 1).drop_last() =~= ov.take(i as int));
            assert(ov.take(i + 1).last() == ov[i as int]);
        }
        let item = &output[i];
        let is_message = match item.get_str("type") {
            Some(t) => str_eq(t, "message"),
            None => false,
        };
        if is_message {
            match item.get_array("content") {
                Some(parts) => if parts.len() > 0 {
                    match parts[0].get_str("text") {
                        Some(t) => {
                            let ghost before = texts@;
                            texts.push(t.to_string());
                            proof {
                                assert(views(texts@) =~= views(before).push(texts@.last()@));
                            }
                        },
                        None => {},
                    }
                },
                None => {},
            }
        }
        i = i + 1;
    }
    proof {
        assert(ov.take(output.len() as int) =~= ov);
        reveal_strlit("\n");
        assert("\n"@ =~= seq!['\n']);
    }
    join_strings(&texts, "\n")
}

/// Why a Chat response cannot be converted.
#[derive(PartialEq, Eq, Structural)]
pub enum ChatResponseError {
    /// The response has no `choices` array.
    NoChoices,
    /// The `choices` array is empty.
    EmptyChoices,
    /// The first choice has no `message`.
    NoMessage,
}

/// The text of a conversion error.
pub open spec fn chat_error_text_v(e: ChatResponseError) -> Seq<char> {
    match e {
        ChatResponseError::NoChoices => "No choices in chat response"@,
        ChatResponseError::EmptyChoices => "Empty choices in chat response"@,
        ChatResponseError::NoMessage => "No message in chat choice"@,
    }
}

/// The conversion error a Chat completion body meets, if any.
pub open spec fn chat_error_v(body: JsonV) -> Option<ChatResponseError> {
    match get_array_v(body, "choices"@) {
        None => Some(ChatResponseError::NoChoices),
        Some(c) => if c.len() == 0 {
            Some(ChatResponseError::EmptyChoices)
        } else if get_v(c[0], "message"@) is None {
            Some(ChatResponseError::NoMessage)
        } else {
            None
        },
    }
}

impl ChatResponseError {
    /// The error text.
    pub fn message(&self) -> (r: &'static str)
        ensures
            r@ == chat_error_text_v(*self),
    {
        match self {
            ChatResponseError::NoChoices => "No choices in chat response",
            ChatResponseError::EmptyChoices => "Empty choices in chat response",
            ChatResponseError::NoMessage => "No message in chat choice",
        }
    }
}

/// The Responses response for a Chat completion whose first choice carries
/// `message`.
pub open spec fn response_v(body: JsonV, choice: JsonV, message: JsonV, customs: Seq<Seq<char>>) -> JsonV {
    let rid = response_id_v(get_str_v(body, "id"@));
    let model = text_or_empty_v(body, "model"@);
    let created: nat = match get_v(body, "created"@) {
        Some(v) => match number_u64_v(v) {
            Some(n) => n as nat,
            None => 0,
        },
        None => 0,
    };
    let finish = get_str_v(choice, "finish_reason"@);
    let reasoning = chat_reasoning_v(message);
    let o1: Seq<JsonV> = match reasoning_item_v(reasoning, rid) {
        Some(i) => seq![i],
        None => Seq::empty(),
    };
    let o2 = match message_item_v(message, rid) {
        Some(i) => o1.push(i),
        None => o1,
    };
    let output = o2 + tool_call_items_v(message, reasoning, customs);
    let r0 = JsonV::Object(
        seq![
            ("id"@, JsonV::Str(rid)),
            ("object"@, JsonV::Str("response"@)),
            ("created_at"@, num_v(created)),
            ("status"@, JsonV::Str(status_v(finish))),
            ("model"@, JsonV::Str(model)),
            ("output"@, JsonV::Array(output)),
            ("usage"@, usage_v(get_v(body, "usage"@))),
        ],
    );
    let r1 = if finish == Some("length"@) {
        set_v(
            r0,
            "incomplete_details"@,
            JsonV::Object(seq![("reason"@, JsonV::Str("max_output_tokens"@))]),
        )
    } else {
        r0
    };
    let text = join_seq(output_texts_v(output), seq!['\n']);
    if text.len() > 0 {
        set_v(r1, "output_text"@, JsonV::Str(text))
    } else {
        r1
    }
}

/// The first choice of a Chat completion, if it has any.
pub open spec fn first_choice_v(body: JsonV) -> Option<JsonV> {
    match get_array_v(body, "choices"@) {
        Some(c) => if c.len() > 0 {
            Some(c[0])
        } else {
            None
        },
        None => None,
    }
}

/// Converts a non-streaming Chat completion to a Responses response.
pub fn chat_completion_to_response_with_context(body: &Json, tool_context: &CodexToolContext) -> (r: Result<Json, ChatResponseError>)
    requires
        usage_sum_fits_v(get_v(body@, "usage"@)),
    ensures
        match r {
            Ok(v) => first_choice_v(body@) matches Some(c) && get_v(c, "message"@) matches Some(m)
                && v@ == response_v(body@, c, m, tool_context.custom_tool_names()),
            Err(ChatResponseError::NoChoices) => get_array_v(body@, "choices"@) is None,
            Err(ChatResponseError::EmptyChoices) => get_array_v(body@, "choices"@) matches Some(c)
                && c.len() == 0,
            Err(ChatResponseError::NoMessage) => first_choice_v(body@) matches Some(c) && get_v(
                c,
                "message"@,
            ) is None,
        },
{
    let choices = match body.get_array("choices") {
        Some(c) => c,
        None => {
            return Err(ChatResponseError::NoChoices);
        },
    };
    if choices.len() == 0 {
        return Err(ChatResponseError::EmptyChoices);
    }
    let choice = &choices[0];
    let message = match choice.get("message") {
        Some(m) => m,
        None => {
            return Err(ChatResponseError::NoMessage);
        },
    };
    let response_id = response_id_from_chat_id(body.get_str("id"));
    let model = text_or_empty(body, "model");
    let created_at = match body.get("created") {
        Some(v) => match v.as_u64() {
            Some(n) => n,
            None => 0,
        },
        None => 0,
    };
    let finish_reason = choice.get_str("finish_reason");
    let reasoning = chat_reasoning_text(message);
    let reasoning_ref: Option<&str> = match &reasoning {
        Some(r) => Some(r.as_str()),
        None => None,
    };
    let ghost rv = chat_reasoning_v(message@);
    assert(match reasoning_ref {
        Some(t) => Some(t@),
        None => None,
    } == rv);
    let ghost rid = response_id@;
    let ghost o1: Seq<JsonV> = match reasoning_item_v(rv, rid) {
        Some(i) => seq![i],
        None => Seq::empty(),
    };
    let ghost o2 = match message_item_v(message@, rid) {
        Some(i) => o1.push(i),
        None => o1,
    };
    let mut output: Vec<Json> = Vec::new();
    proof {
        lemma_view_items_empty();
    }
    match chat_reasoning_to_response_output_item(reasoning_ref, response_id.as_str()) {
        Some(item) => {
            push_item(&mut output, item);
            proof {
                assert(view_items(output@) =~= seq![view_items(output@)[0]]);
            }
        },
        None => {},
    }
    assert(view_items(output@) == o1);
    match chat_message_to_response_output_item(message, response_id.as_str()) {
        Some(item) => push_item(&mut output, item),
        None => {},
    }
    assert(view_items(output@) == o2);
    let mut calls = chat_tool_calls_to_response_output_items(message, reasoning_ref, tool_context);
    let ghost o = output@;
    let ghost cs = calls@;
    output.append(&mut calls);
    proof {
        crate::json::lemma_view_items_add(o, cs);
    }
    assert(view_items(output@) == o2 + tool_call_items_v(message@, rv, tool_context.custom_tool_names()));
    let text = output_text_from_items(&output);
    let status = response_status_from_finish_reason(finish_reason);
    let ghost created_v: nat = match get_v(body@, "created"@) {
        Some(v) => match number_u64_v(v) {
            Some(n) => n as nat,
            None => 0,
        },
        None => 0,
    };
    assert(created_at as nat == created_v);
    let mut e: Vec<(String, Json)> = Vec::new();
    e.push(("id".to_string(), Json::Str(response_id)));
    e.push(("object".to_string(), Json::str_of("response")));
    e.push(("created_at".to_string(), number_of_u64(created_at)));
    e.push(("status".to_string(), Json::str_of(status)));
    e.push(("model".to_string(), Json::Str(model)));
    e.push(("output".to_string(), Json::Array(output)));
    e.push(("usage".to_string(), chat_usage_to_responses_usage(body.get("usage"))));
    assert(crate::json::view_entries(e@) =~= seq![
        ("id"@, JsonV::Str(rid)),
        ("object"@, JsonV::Str("response"@)),
        ("created_at"@, num_v(created_v)),
        ("status"@, JsonV::Str(status_v(get_str_v(choice@, "finish_reason"@)))),
        ("model"@, JsonV::Str(text_or_empty_v(body@, "model"@))),
        ("output"@, JsonV::Array(o2 + tool_call_items_v(message@, rv, tool_context.custom_tool_names()))),
        ("usage"@, usage_v(get_v(body@, "usage"@))),
    ]);
    let mut response = Json::Object(e);
    let is_length = match finish_reason {
        Some(f) => str_eq(f, "length"),
        None => false,
    };
    if is_length {
        response.set("incomplete_details", object1("reason", Json::str_of("max_output_tokens")));
    }
    if !text.as_str().is_empty() {
        response.set("output_text", Json::Str(text));
    }
    Ok(response)
}

/// Converts a non-streaming Chat completion to Responses JSON text.
pub fn chat_json_to_responses_json(body: &Json, tool_context: &CodexToolContext) -> (r: Result<String, ChatResponseError>)
    requires
        usage_sum_fits_v(get_v(body@, "usage"@)),
    ensures
        match r {
            Ok(t) => first_choice_v(body@) matches Some(c) && get_v(c, "message"@) matches Some(m)
                && t@ == crate::canonical::canonical_v(
                    response_v(body@, c, m, tool_context.custom_tool_names()),
                ),
            Err(e) => chat_error_v(body@) == Some(e),
        },
{
    match chat_completion_to_response_with_context(body, tool_context) {
        Ok(v) => Ok(crate::canonical::canonical_json_string(&v)),
        Err(e) => Err(e),
    }
}

// ---------------------------------------------------------------------------
// Tool calls there and back

proof fn lemma_call_item_members(e: Seq<(Seq<char>, JsonV)>, ty: Seq<char>, call_id: Seq<char>, name: Seq<char>)
    requires
        e.len() >= 5,
        e[0].0 == "id"@,
        e[1] == ("type"@, JsonV::Str(ty)),
        e[2].0 == "status"@,
        e[3] == ("call_id"@, JsonV::Str(call_id)),
        e[4] == ("name"@, JsonV::Str(name)),
    ensures
        get_str_v(JsonV::Object(e), "type"@) == Some(ty),
        get_str_v(JsonV::Object(e), "call_id"@) == Some(call_id),
        get_str_v(JsonV::Object(e), "name"@) == Some(name),
{
    reveal_strlit("id");
    reveal_strlit("type");
    reveal_strlit("status");
    reveal_strlit("call_id");
    reveal_strlit("name");
    assert("type"@ != "name"@) by {
        assert("type"@[0] != "name"@[0]);
    }
    assert("id"@.len() == 2 && "type"@.len() == 4 && "status"@.len() == 6 && "call_id"@.len() == 7
        && "name"@.len() == 4);
    assert(e[0].0 != "type"@ && e[0].0 != "call_id"@ && e[0].0 != "name"@);
    assert(e[1].0 != "call_id"@ && e[1].0 != "name"@);
    assert(e[2].0 != "call_id"@ && e[2].0 != "name"@);
    assert(e[3].0 != "name"@);
    assert(crate::json::first_key_at(e, "type"@, 1));
    assert(crate::json::first_key_at(e, "call_id"@, 3));
    assert(crate::json::first_key_at(e, "name"@, 4));
    crate::json::lemma_key_index(e, "type"@);
    crate::json::lemma_key_index(e, "call_id"@);
    crate::json::lemma_key_index(e, "name"@);
}

proof fn lemma_chat_call_members(id: Seq<char>, name: Seq<char>, arguments: Seq<char>, index: nat)
    requires
        id.len() > 0,
    ensures
        tool_call_id_v(crate::tool_context::chat_tool_call_v(id, name, arguments), index) == id,
        text_or_empty_v(function_of_v(crate::tool_context::chat_tool_call_v(id, name, arguments)), "name"@)
            == name,
        get_v(function_of_v(crate::tool_context::chat_tool_call_v(id, name, arguments)), "arguments"@)
            == Some(JsonV::Str(arguments)),
{
    reveal_strlit("id");
    reveal_strlit("type");
    reveal_strlit("function");
    reveal_strlit("name");
    reveal_strlit("arguments");
    let c = crate::tool_context::chat_tool_call_v(id, name, arguments);
    let e = seq![
        ("id"@, JsonV::Str(id)),
        ("type"@, JsonV::Str("function"@)),
        ("function"@, JsonV::Object(seq![("name"@, JsonV::Str(name)), ("arguments"@, JsonV::Str(arguments))])),
    ];
    assert(c == JsonV::Object(e));
    assert("id"@.len() == 2 && "type"@.len() == 4 && "function"@.len() == 8 && "name"@.len() == 4
        && "arguments"@.len() == 9);
    assert(e[0].0 != "function"@ && e[1].0 != "function"@);
    assert(crate::json::first_key_at(e, "id"@, 0));
    assert(crate::json::first_key_at(e, "function"@, 2));
    crate::json::lemma_key_index(e, "id"@);
    crate::json::lemma_key_index(e, "function"@);
    let f = seq![("name"@, JsonV::Str(name)), ("arguments"@, JsonV::Str(arguments))];
    assert(f[0].0 != "arguments"@);
    assert(crate::json::first_key_at(f, "name"@, 0));
    assert(crate::json::first_key_at(f, "arguments"@, 1));
    crate::json::lemma_key_index(f, "name"@);
    crate::json::lemma_key_index(f, "arguments"@);
}

/// A tool call of the Responses history, sent upstream as a Chat tool call
/// and read back from a Chat reply, keeps its kind, call id and name: the
/// call of a custom tool comes back as a `custom_tool_call`, a function call
/// whose name is no custom tool as a `function_call`. Call ids are taken
/// non-empty (a Chat call without one is named by its position).
pub proof fn lemma_tool_calls_round_trip(
    item: JsonV,
    index: nat,
    reasoning: Option<Seq<char>>,
    customs: Seq<Seq<char>>,
)
    requires
        crate::builtin_tools::output_call_id_v(item).len() > 0,
    ensures
        customs.contains(crate::tool_context::str_or_empty_v(item, "name"@)) ==> {
            let back = tool_call_item_v(crate::tool_context::custom_tool_call_to_chat_v(item), index, reasoning, customs);
            &&& get_str_v(back, "type"@) == Some("custom_tool_call"@)
            &&& get_str_v(back, "call_id"@) == Some(crate::builtin_tools::output_call_id_v(item))
            &&& get_str_v(back, "name"@) == Some(crate::tool_context::str_or_empty_v(item, "name"@))
        },
        !customs.contains(crate::tool_context::str_or_empty_v(item, "name"@)) ==> {
            let back = tool_call_item_v(crate::tool_context::function_call_to_chat_v(item), index, reasoning, customs);
            &&& get_str_v(back, "type"@) == Some("function_call"@)
            &&& get_str_v(back, "call_id"@) == Some(crate::builtin_tools::output_call_id_v(item))
            &&& get_str_v(back, "name"@) == Some(crate::tool_context::str_or_empty_v(item, "name"@))
        },
{
    let id = crate::builtin_tools::output_call_id_v(item);
    let name = crate::tool_context::str_or_empty_v(item, "name"@);
    let r_entries: Seq<(Seq<char>, JsonV)> = match reasoning {
        Some(r) => if r.len() > 0 {
            seq![("reasoning_content"@, JsonV::Str(r))]
        } else {
            Seq::empty()
        },
        None => Seq::empty(),
    };
    let custom_args = crate::canonical::canonical_v(
        JsonV::Object(seq![("input"@, JsonV::Str(crate::tool_context::str_or_empty_v(item, "input"@)))]),
    );
    lemma_chat_call_members(id, name, custom_args, index);
    let function_args = canonical_tool_arguments_v(get_v(item, "arguments"@));
    lemma_chat_call_members(id, name, function_args, index);
    if customs.contains(name) {
        let input = crate::tool_context::custom_input_v(canonical_tool_arguments_v(Some(JsonV::Str(custom_args))));
        let e = seq![
            ("id"@, JsonV::Str(tool_call_item_id_v(id))),
            ("type"@, JsonV::Str("custom_tool_call"@)),
            ("status"@, JsonV::Str("completed"@)),
            ("call_id"@, JsonV::Str(id)),
            ("name"@, JsonV::Str(name)),
            ("input"@, JsonV::Str(input)),
        ] + r_entries;
        assert(tool_call_item_v(crate::tool_context::custom_tool_call_to_chat_v(item), index, reasoning, customs)
            == JsonV::Object(e));
        lemma_call_item_members(e, "custom_tool_call"@, id, name);
    } else {
        let e = seq![
            ("id"@, JsonV::Str(tool_call_item_id_v(id))),
            ("type"@, JsonV::Str("function_call"@)),
            ("status"@, JsonV::Str("completed"@)),
            ("call_id"@, JsonV::Str(id)),
            ("name"@, JsonV::Str(name)),
            ("arguments"@, JsonV::Str(canonical_tool_arguments_v(Some(JsonV::Str(function_args))))),
        ] + r_entries;
        assert(tool_call_item_v(crate::tool_context::function_call_to_chat_v(item), index, reasoning, customs)
            == JsonV::Object(e));
        lemma_call_item_members(e, "function_call"@, id, name);
    }
}

} // verus!
