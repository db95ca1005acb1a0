//! Codex built-in tool items (web search, file search, code interpreter,
//! image generation, local shell) as Chat tool history: the call keeps what
//! was asked, the tool message keeps a compact result.
use vstd::prelude::*;

use crate::canonical::{
    canonical_json_string, canonical_v, canonicalize_if_parseable_v,
    canonicalize_json_string_if_parseable,
};
use crate::json::{
    deep_clone, get_array_v, get_str_v, get_v, lemma_view_entries_empty, lemma_view_entries_push,
    lemma_view_items_empty, lemma_view_items_push, object2, object3, remove_v, view_entries,
    view_items, Json, JsonV,
};
use crate::text::{concat2, str_eq};

verus! {

/// The member `key`, or null.
pub open spec fn or_null_v(v: Option<JsonV>) -> JsonV {
    match v {
        Some(x) => x,
        None => JsonV::Null,
    }
}

/// The first of two members that the value has.
pub open spec fn either_v(j: JsonV, k1: Seq<char>, k2: Seq<char>) -> Option<JsonV> {
    match get_v(j, k1) {
        Some(v) => Some(v),
        None => get_v(j, k2),
    }
}

fn either<'a>(j: &'a Json, k1: &str, k2: &str) -> (r: Option<&'a Json>)
    ensures
        match either_v(j@, k1@, k2@) {
            Some(v) => r is Some && r->0@ == v,
            None => r is None,
        },
{
    match j.get(k1) {
        Some(v) => Some(v),
        None => j.get(k2),
    }
}

fn cloned_or_null(v: Option<&Json>) -> (r: Json)
    ensures
        r@ == or_null_v(
            match v {
                Some(x) => Some(x@),
                None => None,
            },
        ),
{
    match v {
        Some(x) => deep_clone(x),
        None => Json::Null,
    }
}

/// One member when the value is present, none otherwise.
pub open spec fn opt_entry_v(key: Seq<char>, v: Option<JsonV>) -> Seq<(Seq<char>, JsonV)> {
    match v {
        Some(x) => seq![(key, x)],
        None => Seq::empty(),
    }
}

fn push_opt(e: &mut Vec<(String, Json)>, key: &str, v: Option<Json>)
    ensures
        view_entries(final(e)@) == view_entries(old(e)@) + opt_entry_v(
            key@,
            match v {
                Some(x) => Some(x@),
                None => None,
            },
        ),
{
    match v {
        Some(x) => {
            let k = key.to_string();
            proof {
                lemma_view_entries_push(e@, k, x);
            }
            e.push((k, x));
            proof {
                assert(view_entries(old(e)@).push((key@, x@)) =~= view_entries(old(e)@) + seq![
                    (key@, x@),
                ]);
            }
        },
        None => {
            assert(view_entries(e@) + Seq::<(Seq<char>, JsonV)>::empty() =~= view_entries(e@));
        },
    }
}

fn get_cloned(j: &Json, key: &str) -> (r: Option<Json>)
    ensures
        match get_v(j@, key@) {
            Some(v) => r is Some && r->0@ == v,
            None => r is None,
        },
{
    match j.get(key) {
        Some(v) => Some(deep_clone(v)),
        None => None,
    }
}

/// The Chat tool name for a built-in tool item type.
pub open spec fn builtin_tool_name_v(item_type: Seq<char>) -> Seq<char> {
    if item_type == "web_search_call"@ {
        "web_search"@
    } else if item_type == "file_search_call"@ {
        "file_search"@
    } else if item_type == "code_interpreter_call"@ {
        "code_interpreter"@
    } else if item_type == "image_generation_call"@ {
        "image_generation"@
    } else if item_type == "local_shell_call"@ {
        "local_shell"@
    } else {
        "tool"@
    }
}

pub fn builtin_tool_chat_name(item_type: &str) -> (r: &'static str)
    ensures
        r@ == builtin_tool_name_v(item_type@),
{
    if str_eq(item_type, "web_search_call") {
        "web_search"
    } else if str_eq(item_type, "file_search_call") {
        "file_search"
    } else if str_eq(item_type, "code_interpreter_call") {
        "code_interpreter"
    } else if str_eq(item_type, "image_generation_call") {
        "image_generation"
    } else if str_eq(item_type, "local_shell_call") {
        "local_shell"
    } else {
        "tool"
    }
}

/// The call id an output item refers to: the text of its `call_id`, or of
/// its `id` when it has no `call_id`; empty otherwise.
pub open spec fn output_call_id_v(item: JsonV) -> Seq<char> {
    match either_v(item, "call_id"@, "id"@) {
        Some(JsonV::Str(s)) => s,
        _ => Seq::empty(),
    }
}

pub fn responses_output_call_id(item: &Json) -> (r: String)
    ensures
        r@ == output_call_id_v(item@),
{
    match either(item, "call_id", "id") {
        Some(v) => match v.as_str() {
            Some(s) => s.to_string(),
            None => String::new(),
        },
        None => String::new(),
    }
}

/// The id given to a built-in tool call: its call id, else its non-empty
/// `id`, else `codex_builtin_call`.
pub open spec fn builtin_call_id_v(item: JsonV) -> Seq<char> {
    if output_call_id_v(item).len() > 0 {
        output_call_id_v(item)
    } else {
        match get_str_v(item, "id"@) {
            Some(id) => if id.len() > 0 {
                id
            } else {
                "codex_builtin_call"@
            },
            None => "codex_builtin_call"@,
        }
    }
}

pub fn builtin_tool_call_id(item: &Json) -> (r: String)
    ensures
        r@ == builtin_call_id_v(item@),
{
    let call_id = responses_output_call_id(item);
    if !call_id.as_str().is_empty() {
        return call_id;
    }
    match item.get_str("id") {
        Some(id) => if !id.is_empty() {
            id.to_string()
        } else {
            "codex_builtin_call".to_string()
        },
        None => "codex_builtin_call".to_string(),
    }
}

/// The text of an output item's `output`: a string normalized as JSON text
/// when it parses, another value written canonically, nothing empty.
pub open spec fn tool_output_content_v(item: JsonV) -> Seq<char> {
    match get_v(item, "output"@) {
        Some(JsonV::Str(t)) => canonicalize_if_parseable_v(t),
        Some(v) => canonical_v(v),
        None => Seq::empty(),
    }
}

pub fn responses_tool_output_content(item: &Json) -> (r: String)
    ensures
        r@ == tool_output_content_v(item@),
{
    match item.get("output") {
        Some(Json::Str(t)) => canonicalize_json_string_if_parseable(t.as_str()),
        Some(v) => canonical_json_string(v),
        None => String::new(),
    }
}

// ---------------------------------------------------------------------------
// Compact arguments and results

/// A value without the given members when it is an object.
pub open spec fn without4_v(j: JsonV, a: Seq<char>, b: Seq<char>, c: Seq<char>, d: Seq<char>) -> JsonV {
    remove_v(remove_v(remove_v(remove_v(j, a), b), c), d)
}

/// Generic built-in call arguments: the item without its type and results.
pub open spec fn generic_arguments_v(item: JsonV) -> JsonV {
    without4_v(item, "type"@, "results"@, "output"@, "outputs"@)
}

fn compact_generic_builtin_arguments(item: &Json) -> (r: Json)
    ensures
        r@ == generic_arguments_v(item@),
{
    let mut args = deep_clone(item);
    args.remove("type");
    args.remove("results");
    args.remove("output");
    args.remove("outputs");
    args
}

/// Generic built-in result: status and whatever results the item carries.
pub open spec fn generic_result_v(item: JsonV) -> JsonV {
    if item is Object {
        JsonV::Object(
            opt_entry_v("status"@, get_v(item, "status"@)) + opt_entry_v(
                "results"@,
                get_v(item, "results"@),
            ) + opt_entry_v("output"@, get_v(item, "output"@)) + opt_entry_v(
                "outputs"@,
                get_v(item, "outputs"@),
            ) + opt_entry_v("action"@, get_v(item, "action"@)),
        )
    } else {
        item
    }
}

fn compact_generic_builtin_result(item: &Json) -> (r: Json)
    ensures
        r@ == generic_result_v(item@),
{
    if !item.is_object() {
        return deep_clone(item);
    }
    let mut e: Vec<(String, Json)> = Vec::new();
    proof {
        lemma_view_entries_empty();
    }
    push_opt(&mut e, "status", get_cloned(item, "status"));
    push_opt(&mut e, "results", get_cloned(item, "results"));
    push_opt(&mut e, "output", get_cloned(item, "output"));
    push_opt(&mut e, "outputs", get_cloned(item, "outputs"));
    push_opt(&mut e, "action", get_cloned(item, "action"));
    proof {
        assert(view_entries(e@) =~= opt_entry_v("status"@, get_v(item@, "status"@)) + opt_entry_v(
            "results"@,
            get_v(item@, "results"@),
        ) + opt_entry_v("output"@, get_v(item@, "output"@)) + opt_entry_v(
            "outputs"@,
            get_v(item@, "outputs"@),
        ) + opt_entry_v("action"@, get_v(item@, "action"@)));
    }
    Json::Object(e)
}

/// A web search action without its sources and results.
pub open spec fn web_search_action_v(action: JsonV) -> JsonV {
    remove_v(remove_v(action, "sources"@), "results"@)
}

fn compact_web_search_action(action: &Json) -> (r: Json)
    ensures
        r@ == web_search_action_v(action@),
{
    let mut a = deep_clone(action);
    a.remove("sources");
    a.remove("results");
    a
}

/// Web search call arguments: its status and its compact action.
pub open spec fn web_search_arguments_v(item: JsonV) -> JsonV {
    JsonV::Object(
        opt_entry_v("status"@, get_v(item, "status"@)) + opt_entry_v(
            "action"@,
            match get_v(item, "action"@) {
                Some(a) => Some(web_search_action_v(a)),
                None => None,
            },
        ),
    )
}

fn compact_web_search_arguments(item: &Json) -> (r: Json)
    ensures
        r@ == web_search_arguments_v(item@),
{
    let mut e: Vec<(String, Json)> = Vec::new();
    proof {
        lemma_view_entries_empty();
    }
    push_opt(&mut e, "status", get_cloned(item, "status"));
    let action = match item.get("action") {
        Some(a) => Some(compact_web_search_action(a)),
        None => None,
    };
    push_opt(&mut e, "action", action);
    proof {
        assert(view_entries(e@) =~= opt_entry_v("status"@, get_v(item@, "status"@)) + opt_entry_v(
            "action"@,
            match get_v(item@, "action"@) {
                Some(a) => Some(web_search_action_v(a)),
                None => None,
            },
        ));
    }
    Json::Object(e)
}

/// The hits of a web search item: its `results`, or its action's `sources`
/// or `results`.
pub open spec fn web_search_hits_v(item: JsonV) -> Option<JsonV> {
    match get_v(item, "results"@) {
        Some(r) => Some(r),
        None => match get_v(item, "action"@) {
            Some(a) => either_v(a, "sources"@, "results"@),
            None => None,
        },
    }
}

/// The number of hits kept in a compact result.
pub open spec fn max_hits() -> nat {
    20
}

/// A compact URL hit: its `url` and its `title` (or `name`).
pub open spec fn url_hit_v(hit: JsonV) -> JsonV {
    JsonV::Object(
        seq![
            ("url"@, or_null_v(get_v(hit, "url"@))),
            ("title"@, or_null_v(either_v(hit, "title"@, "name"@))),
        ],
    )
}

/// At most the first twenty hits, compacted; a value that is not an array
/// stays as it is.
pub open spec fn url_hits_v(results: JsonV) -> JsonV {
    match results {
        JsonV::Array(hits) => {
            let n = if hits.len() < max_hits() {
                hits.len()
            } else {
                max_hits()
            };
            JsonV::Array(Seq::new(n, |i: int| url_hit_v(hits[i])))
        },
        _ => results,
    }
}

fn compact_url_hits(results: &Json) -> (r: Json)
    ensures
        r@ == url_hits_v(results@),
{
    match results {
        Json::Array(hits) => {
            let n: usize = if hits.len() < 20 {
                hits.len()
            } else {
                20
            };
            let mut out: Vec<Json> = Vec::new();
            let mut i: usize = 0;
            while i < n
                invariant
                    i <= n <= hits.len(),
                    out.len() == i,
                    forall|k: int| 0 <= k < i ==> (#[trigger] out@[k])@ == url_hit_v(hits@[k]@),
                decreases n - i,
            {
                let hit = &hits[i];
                let o = object2(
                    "url",
                    cloned_or_null(hit.get("url")),
                    "title",
                    cloned_or_null(either(hit, "title", "name")),
                );
                out.push(o);
                i = i + 1;
            }
            assert(view_items(out@) =~= Seq::new(n as nat, |k: int| url_hit_v(view_items(hits@)[k])));
            Json::Array(out)
        },
        _ => deep_clone(results),
    }
}

/// Web search result: its status and its compact hits.
pub open spec fn web_search_result_v(item: JsonV) -> JsonV {
    JsonV::Object(
        opt_entry_v("status"@, get_v(item, "status"@)) + opt_entry_v(
            "results"@,
            match web_search_hits_v(item) {
                Some(h) => Some(url_hits_v(h)),
                None => None,
            },
        ),
    )
}

fn compact_web_search_result(item: &Json) -> (r: Json)
    ensures
        r@ == web_search_result_v(item@),
{
    let mut e: Vec<(String, Json)> = Vec::new();
    proof {
        lemma_view_entries_empty();
    }
    push_opt(&mut e, "status", get_cloned(item, "status"));
    let hits: Option<&Json> = match item.get("results") {
        Some(r) => Some(r),
        None => match item.get("action") {
            Some(a) => either(a, "sources", "results"),
            None => None,
        },
    };
    let results = match hits {
        Some(h) => Some(compact_url_hits(h)),
        None => None,
    };
    push_opt(&mut e, "results", results);
    proof {
        assert(view_entries(e@) =~= opt_entry_v("status"@, get_v(item@, "status"@)) + opt_entry_v(
            "results"@,
            match web_search_hits_v(item@) {
                Some(h) => Some(url_hits_v(h)),
                None => None,
            },
        ));
    }
    Json::Object(e)
}

/// File search arguments: status and queries.
pub open spec fn file_search_arguments_v(item: JsonV) -> JsonV {
    let queries = match get_v(item, "queries"@) {
        Some(q) => q,
        None => JsonV::Array(Seq::empty()),
    };
    JsonV::Object(seq![("status"@, or_null_v(get_v(item, "status"@))), ("queries"@, queries)])
}

fn compact_file_search_arguments(item: &Json) -> (r: Json)
    ensures
        r@ == file_search_arguments_v(item@),
{
    let queries = match item.get("queries") {
        Some(q) => deep_clone(q),
        None => {
            let v: Vec<Json> = Vec::new();
            proof {
                lemma_view_items_empty();
                assert(view_items(v@) =~= Seq::<JsonV>::empty());
            }
            Json::Array(v)
        },
    };
    let status = cloned_or_null(item.get("status"));
    let r = object2("status", status, "queries", queries);
    assert(r@ =~= file_search_arguments_v(item@));
    r
}

/// A compact file search hit: its file name (or id) and its score.
pub open spec fn file_hit_v(hit: JsonV) -> JsonV {
    JsonV::Object(
        seq![
            ("filename"@, or_null_v(either_v(hit, "filename"@, "file_id"@))),
            ("score"@, or_null_v(get_v(hit, "score"@))),
        ],
    )
}

/// File search result: status and at most the first twenty compact hits.
pub open spec fn file_search_result_v(item: JsonV) -> JsonV {
    let hits = match get_array_v(item, "results"@) {
        Some(h) => {
            let n = if h.len() < max_hits() {
                h.len()
            } else {
                max_hits()
            };
            Seq::new(n, |i: int| file_hit_v(h[i]))
        },
        None => Seq::empty(),
    };
    JsonV::Object(
        seq![("status"@, or_null_v(get_v(item, "status"@))), ("results"@, JsonV::Array(hits))],
    )
}

fn compact_file_search_result(item: &Json) -> (r: Json)
    ensures
        r@ == file_search_result_v(item@),
{
    let mut out: Vec<Json> = Vec::new();
    match item.get_array("results") {
        Some(hits) => {
            let n: usize = if hits.len() < 20 {
                hits.len()
            } else {
                20
            };
            let mut i: usize = 0;
            while i < n
                invariant
                    i <= n <= hits.len(),
                    out.len() == i,
                    forall|k: int| 0 <= k < i ==> (#[trigger] out@[k])@ == file_hit_v(hits@[k]@),
                decreases n - i,
            {
                let hit = &hits[i];
                let o = object2(
                    "filename",
                    cloned_or_null(either(hit, "filename", "file_id")),
                    "score",
                    cloned_or_null(hit.get("score")),
                );
                out.push(o);
                i = i + 1;
            }
            assert(view_items(out@) =~= Seq::new(n as nat, |k: int| file_hit_v(view_items(hits@)[k])));
        },
        None => {
            proof {
                lemma_view_items_empty();
            }
        },
    }
    object2("status", cloned_or_null(item.get("status")), "results", Json::Array(out))
}

/// Code interpreter arguments: status and container.
pub open spec fn code_interpreter_arguments_v(item: JsonV) -> JsonV {
    JsonV::Object(
        seq![
            ("status"@, or_null_v(get_v(item, "status"@))),
            ("container_id"@, or_null_v(get_v(item, "container_id"@))),
        ],
    )
}

/// Code interpreter result: status and outputs (or output).
pub open spec fn code_interpreter_result_v(item: JsonV) -> JsonV {
    JsonV::Object(
        seq![
            ("status"@, or_null_v(get_v(item, "status"@))),
            ("outputs"@, or_null_v(either_v(item, "outputs"@, "output"@))),
        ],
    )
}

/// Image generation arguments: status and prompt (or revised prompt).
pub open spec fn image_generation_arguments_v(item: JsonV) -> JsonV {
    JsonV::Object(
        seq![
            ("status"@, or_null_v(get_v(item, "status"@))),
            ("prompt"@, or_null_v(either_v(item, "prompt"@, "revised_prompt"@))),
        ],
    )
}

/// The image of an image generation item: `result`, `url` or `image_url`.
pub open spec fn image_result_field_v(item: JsonV) -> Option<JsonV> {
    match either_v(item, "result"@, "url"@) {
        Some(v) => Some(v),
        None => get_v(item, "image_url"@),
    }
}

/// Image generation result: status and the image.
pub open spec fn image_generation_result_v(item: JsonV) -> JsonV {
    JsonV::Object(
        seq![
            ("status"@, or_null_v(get_v(item, "status"@))),
            ("result"@, or_null_v(image_result_field_v(item))),
        ],
    )
}

/// Local shell arguments: status and action.
pub open spec fn local_shell_arguments_v(item: JsonV) -> JsonV {
    JsonV::Object(
        seq![
            ("status"@, or_null_v(get_v(item, "status"@))),
            ("action"@, or_null_v(get_v(item, "action"@))),
        ],
    )
}

/// The arguments recorded for a built-in call: what was asked, without the
/// results.
pub open spec fn builtin_arguments_v(item: JsonV, item_type: Seq<char>) -> JsonV {
    if item_type == "web_search_call"@ {
        web_search_arguments_v(item)
    } else if item_type == "file_search_call"@ {
        file_search_arguments_v(item)
    } else if item_type == "code_interpreter_call"@ {
        code_interpreter_arguments_v(item)
    } else if item_type == "image_generation_call"@ {
        image_generation_arguments_v(item)
    } else if item_type == "local_shell_call"@ {
        local_shell_arguments_v(item)
    } else {
        generic_arguments_v(item)
    }
}

fn builtin_tool_call_arguments(item: &Json, item_type: &str) -> (r: Json)
    ensures
        r@ == builtin_arguments_v(item@, item_type@),
{
    if str_eq(item_type, "web_search_call") {
        compact_web_search_arguments(item)
    } else if str_eq(item_type, "file_search_call") {
        compact_file_search_arguments(item)
    } else if str_eq(item_type, "code_interpreter_call") {
        object2(
            "status",
            cloned_or_null(item.get("status")),
            "container_id",
            cloned_or_null(item.get("container_id")),
        )
    } else if str_eq(item_type, "image_generation_call") {
        object2(
            "status",
            cloned_or_null(item.get("status")),
            "prompt",
            cloned_or_null(either(item, "prompt", "revised_prompt")),
        )
    } else if str_eq(item_type, "local_shell_call") {
        object2(
            "status",
            cloned_or_null(item.get("status")),
            "action",
            cloned_or_null(item.get("action")),
        )
    } else {
        compact_generic_builtin_arguments(item)
    }
}

/// The tool message text for a built-in call: its compact result written
/// canonically (a local shell call gives its output text).
pub open spec fn builtin_result_content_v(item: JsonV, item_type: Seq<char>) -> Seq<char> {
    canonical_v(
        if item_type == "web_search_call"@ {
            web_search_result_v(item)
        } else if item_type == "file_search_call"@ {
            file_search_result_v(item)
        } else if item_type == "code_interpreter_call"@ {
            code_interpreter_result_v(item)
        } else if item_type == "image_generation_call"@ {
            image_generation_result_v(item)
        } else if item_type == "local_shell_call"@ {
            JsonV::Str(tool_output_content_v(item))
        } else {
            generic_result_v(item)
        },
    )
}

pub fn builtin_tool_result_content(item: &Json, item_type: &str) -> (r: String)
    ensures
        r@ == builtin_result_content_v(item@, item_type@),
{
    let value = if str_eq(item_type, "web_search_call") {
        compact_web_search_result(item)
    } else if str_eq(item_type, "file_search_call") {
        compact_file_search_result(item)
    } else if str_eq(item_type, "code_interpreter_call") {
        object2(
            "status",
            cloned_or_null(item.get("status")),
            "outputs",
            cloned_or_null(either(item, "outputs", "output")),
        )
    } else if str_eq(item_type, "image_generation_call") {
        let img = match either(item, "result", "url") {
            Some(v) => Some(v),
            None => item.get("image_url"),
        };
        object2("status", cloned_or_null(item.get("status")), "result", cloned_or_null(img))
    } else if str_eq(item_type, "local_shell_call") {
        Json::Str(responses_tool_output_content(item))
    } else {
        compact_generic_builtin_result(item)
    };
    canonical_json_string(&value)
}

/// The prefix of Chat tool names that stand for Codex built-in tools.
pub open spec fn builtin_prefix() -> Seq<char> {
    "codex_builtin__"@
}

/// The Chat tool call for a built-in tool item under the given call id.
pub open spec fn builtin_call_v(item: JsonV, item_type: Seq<char>, call_id: Seq<char>) -> JsonV {
    JsonV::Object(
        seq![
            ("id"@, JsonV::Str(call_id)),
            ("type"@, JsonV::Str("function"@)),
            ("function"@, JsonV::Object(
                seq![
                    ("name"@, JsonV::Str(builtin_prefix() + builtin_tool_name_v(item_type))),
                    ("arguments"@, JsonV::Str(canonical_v(builtin_arguments_v(item, item_type)))),
                ],
            )),
        ],
    )
}

pub fn responses_builtin_tool_call_to_chat_with_id(item: &Json, item_type: &str, call_id: &str) -> (r: Json)
    ensures
        r@ == builtin_call_v(item@, item_type@, call_id@),
{
    let name = concat2("codex_builtin__", builtin_tool_chat_name(item_type));
    let args = canonical_json_string(&builtin_tool_call_arguments(item, item_type));
    let function = object2("name", Json::Str(name), "arguments", Json::Str(args));
    object3("id", Json::str_of(call_id), "type", Json::str_of("function"), "function", function)
}

} // verus!
