//! Tools of a Codex Responses request as Chat tools, and tool calls carried
//! between the two APIs.
//!
//! Function tools travel as Chat function tools. A Codex custom tool, which
//! takes free-form text, travels as a Chat function tool with one string
//! parameter, `input`; a Chat call of such a tool maps back to a Responses
//! `custom_tool_call` item, and every other call to a `function_call` item.
use vstd::prelude::*;

use crate::builtin_tools::{opt_entry_v, output_call_id_v, responses_output_call_id};
use crate::canonical::{canonical_json_string, canonical_tool_arguments_v, canonical_v, canonicalize_tool_arguments};
use crate::json::{
    clone_items, deep_clone, get_str_v, get_v, lemma_view_entries_empty, lemma_view_entries_push,
    lemma_view_items_empty, lemma_view_items_push, object1, object2, object3, view_entries,
    view_items, Json, JsonV,
};
use crate::text::{blank, concat2, is_blank, str_eq};

verus! {

/// A Chat function tool.
pub open spec fn function_tool_v(
    name: Seq<char>,
    description: Option<JsonV>,
    parameters: Option<JsonV>,
) -> JsonV {
    JsonV::Object(
        seq![
            ("type"@, JsonV::Str("function"@)),
            ("function"@, JsonV::Object(
                seq![("name"@, JsonV::Str(name))] + opt_entry_v("description"@, description)
                    + opt_entry_v("parameters"@, parameters),
            )),
        ],
    )
}

/// The parameters a custom tool takes in Chat form: one string, `input`.
pub open spec fn custom_parameters_v() -> JsonV {
    JsonV::Object(
        seq![
            ("type"@, JsonV::Str("object"@)),
            ("properties"@, JsonV::Object(
                seq![("input"@, JsonV::Object(seq![("type"@, JsonV::Str("string"@))]))],
            )),
            ("required"@, JsonV::Array(seq![JsonV::Str("input"@)])),
        ],
    )
}

/// The Chat form of a Responses tool. A function tool already in Chat form
/// stays; one in Responses form gets its name, description and parameters
/// moved under `function`. A custom tool becomes a function tool with its
/// name and description and the parameters of `custom_parameters_v`. Other
/// tools, and tools without a name, have none.
pub open spec fn chat_tool_v(tool: JsonV) -> Option<JsonV> {
    let ty = get_str_v(tool, "type"@);
    if ty == Some("function"@) {
        match get_v(tool, "function"@) {
            Some(_) => Some(tool),
            None => match get_str_v(tool, "name"@) {
                Some(n) => Some(
                    function_tool_v(n, get_v(tool, "description"@), get_v(tool, "parameters"@)),
                ),
                None => None,
            },
        }
    } else if ty == Some("custom"@) {
        match get_str_v(tool, "name"@) {
            Some(n) => Some(function_tool_v(n, get_v(tool, "description"@), Some(custom_parameters_v()))),
            None => None,
        }
    } else {
        None
    }
}

/// The name of a custom tool.
pub open spec fn custom_tool_name_v(tool: JsonV) -> Option<Seq<char>> {
    if get_str_v(tool, "type"@) == Some("custom"@) {
        get_str_v(tool, "name"@)
    } else {
        None
    }
}

/// The names of the custom tools among a request's tools, in order.
pub open spec fn custom_names_v(tools: Seq<JsonV>) -> Seq<Seq<char>>
    decreases tools.len(),
{
    if tools.len() == 0 {
        Seq::empty()
    } else {
        let r = custom_names_v(tools.drop_last());
        match custom_tool_name_v(tools.last()) {
            Some(n) => r.push(n),
            None => r,
        }
    }
}

/// The Chat tools of a request's tools, in order.
pub open spec fn chat_tools_v(tools: Seq<JsonV>) -> Seq<JsonV>
    decreases tools.len(),
{
    if tools.len() == 0 {
        Seq::empty()
    } else {
        let r = chat_tools_v(tools.drop_last());
        match chat_tool_v(tools.last()) {
            Some(t) => r.push(t),
            None => r,
        }
    }
}

/// The tools a Codex request offers, in Chat form.
pub struct CodexToolContext {
    tools: Vec<Json>,
    custom_names: Vec<String>,
}

impl View for CodexToolContext {
    type V = Seq<JsonV>;

    closed spec fn view(&self) -> Seq<JsonV> {
        view_items(self.tools@)
    }
}

fn custom_parameters() -> (r: Json)
    ensures
        r@ == custom_parameters_v(),
{
    let input = object1("type", Json::str_of("string"));
    let properties = object1("input", input);
    let mut required: Vec<Json> = Vec::new();
    required.push(Json::str_of("input"));
    let r = object3(
        "type",
        Json::str_of("object"),
        "properties",
        properties,
        "required",
        Json::Array(required),
    );
    proof {
        assert(view_items(required@) =~= seq![JsonV::Str("input"@)]);
    }
    r
}

fn function_tool(name: &str, description: Option<&Json>, parameters: Option<Json>) -> (r: Json)
    ensures
        r@ == function_tool_v(
            name@,
            match description {
                Some(d) => Some(d@),
                None => None,
            },
            match parameters {
                Some(p) => Some(p@),
                None => None,
            },
        ),
{
    let mut f: Vec<(String, Json)> = Vec::new();
    let k = "name".to_string();
    let nv = Json::str_of(name);
    proof {
        lemma_view_entries_empty();
        lemma_view_entries_push(f@, k, nv);
    }
    f.push((k, nv));
    let ghost f1 = view_entries(f@);
    let ghost dv_opt = match description {
        Some(d) => Some(d@),
        None => None,
    };
    let ghost pv_opt = match &parameters {
        Some(p) => Some(p@),
        None => None,
    };
    match description {
        Some(d) => {
            let k = "description".to_string();
            let dv = deep_clone(d);
            proof {
                lemma_view_entries_push(f@, k, dv);
            }
            f.push((k, dv));
        },
        None => {},
    }
    let ghost f2 = view_entries(f@);
    match parameters {
        Some(p) => {
            let k = "parameters".to_string();
            proof {
                lemma_view_entries_push(f@, k, p);
            }
            f.push((k, p));
        },
        None => {},
    }
    proof {
        assert(f1 =~= seq![("name"@, JsonV::Str(name@))]);
        assert(f2 =~= f1 + opt_entry_v("description"@, dv_opt));
        assert(view_entries(f@) =~= f2 + opt_entry_v("parameters"@, pv_opt));
    }
    object2("type", Json::str_of("function"), "function", Json::Object(f))
}

fn chat_tool(tool: &Json) -> (r: Option<Json>)
    ensures
        match chat_tool_v(tool@) {
            Some(t) => r is Some && r->0@ == t,
            None => r is None,
        },
{
    let (is_function, is_custom) = match tool.get_str("type") {
        Some(t) => (str_eq(t, "function"), str_eq(t, "custom")),
        None => (false, false),
    };
    if is_function {
        if tool.get("function").is_some() {
            return Some(deep_clone(tool));
        }
        match tool.get_str("name") {
            Some(n) => Some(function_tool(n, tool.get("description"), match tool.get("parameters") {
                Some(p) => Some(deep_clone(p)),
                None => None,
            })),
            None => None,
        }
    } else if is_custom {
        match tool.get_str("name") {
            Some(n) => Some(function_tool(n, tool.get("description"), Some(custom_parameters()))),
            None => None,
        }
    } else {
        None
    }
}

fn custom_tool_name(tool: &Json) -> (r: Option<String>)
    ensures
        match custom_tool_name_v(tool@) {
            Some(n) => r is Some && r->0@ == n,
            None => r is None,
        },
{
    let is_custom = match tool.get_str("type") {
        Some(t) => str_eq(t, "custom"),
        None => false,
    };
    if !is_custom {
        return None;
    }
    match tool.get_str("name") {
        Some(n) => Some(n.to_string()),
        None => None,
    }
}

impl CodexToolContext {
    /// The Chat tools, in the order the request offered them.
    pub fn chat_tools(&self) -> (r: Vec<Json>)
        ensures
            view_items(r@) == self@,
    {
        clone_items(&self.tools)
    }

    /// The names of the request's custom tools, in the order it offered them.
    pub closed spec fn custom_tool_names(&self) -> Seq<Seq<char>> {
        self.custom_names@.map_values(|n: String| n@)
    }

    /// Whether a Chat tool name stands for one of the request's custom tools.
    pub fn is_custom_tool_chat_name(&self, chat_name: &str) -> (r: bool)
        ensures
            r == self.custom_tool_names().contains(chat_name@),
    {
        let mut i: usize = 0;
        while i < self.custom_names.len()
            invariant
                i <= self.custom_names.len(),
                forall|k: int| 0 <= k < i ==> self.custom_tool_names()[k] != chat_name@,
            decreases self.custom_names.len() - i,
        {
            if str_eq(self.custom_names[i].as_str(), chat_name) {
                proof {
                    assert(self.custom_tool_names()[i as int] == chat_name@);
                }
                return true;
            }
            i = i + 1;
        }
        false
    }

    /// A context with no tools.
    pub fn empty() -> (r: CodexToolContext)
        ensures
            r@ == Seq::<JsonV>::empty(),
            r.custom_tool_names() == Seq::<Seq<char>>::empty(),
    {
        proof {
            lemma_view_items_empty();
        }
        let r = CodexToolContext { tools: Vec::new(), custom_names: Vec::new() };
        assert(r.custom_tool_names() =~= Seq::<Seq<char>>::empty());
        r
    }
}

impl Default for CodexToolContext {
    fn default() -> (r: CodexToolContext)
        ensures
            r@ == Seq::<JsonV>::empty(),
            r.custom_tool_names() == Seq::<Seq<char>>::empty(),
    {
        CodexToolContext::empty()
    }
}

/// The Chat tools of a Responses request: those of its `tools` array.
pub open spec fn request_tools_v(request: JsonV) -> Seq<JsonV> {
    match crate::json::get_array_v(request, "tools"@) {
        Some(t) => chat_tools_v(t),
        None => Seq::empty(),
    }
}

/// The names of a Responses request's custom tools.
pub open spec fn request_custom_names_v(request: JsonV) -> Seq<Seq<char>> {
    match crate::json::get_array_v(request, "tools"@) {
        Some(t) => custom_names_v(t),
        None => Seq::empty(),
    }
}

/// Collects the Chat form of a request's tools and the names of its custom
/// tools.
pub fn build_codex_tool_context_from_request(request: &Json) -> (r: CodexToolContext)
    ensures
        r@ == request_tools_v(request@),
        r.custom_tool_names() == request_custom_names_v(request@),
{
    let mut out: Vec<Json> = Vec::new();
    let mut names: Vec<String> = Vec::new();
    proof {
        lemma_view_items_empty();
        assert(names@.map_values(|n: String| n@) =~= Seq::<Seq<char>>::empty());
    }
    match request.get_array("tools") {
        Some(tools) => {
            let ghost tv = view_items(tools@);
            let mut i: usize = 0;
            proof {
                assert(tv.take(0) =~= Seq::<JsonV>::empty());
            }
            while i < tools.len()
                invariant
                    i <= tools.len(),
                    tv == view_items(tools@),
                    view_items(out@) == chat_tools_v(tv.take(i as int)),
                    names@.map_values(|n: String| n@) == custom_names_v(tv.take(i as int)),
                decreases tools.len() - i,
            {
                proof {
                    assert(tv.take(i + 1).drop_last() =~= tv.take(i as int));
                    assert(tv.take(i + 1).last() == tv[i as int]);
                }
                match chat_tool(&tools[i]) {
                    Some(t) => {
                        let ghost before = out@;
                        out.push(t);
                        proof {
                            lemma_view_items_push(before, out@.last());
                            assert(out@ =~= before.push(out@.last()));
                        }
                    },
                    None => {},
                }
                match custom_tool_name(&tools[i]) {
                    Some(n) => {
                        let ghost before = names@;
                        names.push(n);
                        proof {
                            assert(names@.map_values(|n: String| n@) =~= before.map_values(
                                |n: String| n@,
                            ).push(names@.last()@));
                        }
                    },
                    None => {},
                }
                i = i + 1;
            }
            proof {
                assert(tv.take(tools.len() as int) =~= tv);
            }
        },
        None => {},
    }
    CodexToolContext { tools: out, custom_names: names }
}

/// A Responses `tool_choice` in Chat form: an object naming a tool becomes
/// `{"type": "function", "function": {"name": ...}}`; strings and other
/// values stay.
pub open spec fn tool_choice_v(choice: JsonV) -> JsonV {
    match choice {
        JsonV::Object(_) => match get_str_v(choice, "name"@) {
            Some(n) => JsonV::Object(
                seq![
                    ("type"@, JsonV::Str("function"@)),
                    ("function"@, JsonV::Object(seq![("name"@, JsonV::Str(n))])),
                ],
            ),
            None => choice,
        },
        _ => choice,
    }
}

pub fn responses_tool_choice_to_chat(choice: &Json, tool_context: &CodexToolContext) -> (r: Json)
    ensures
        r@ == tool_choice_v(choice@),
{
    match choice {
        Json::Object(_) => match choice.get_str("name") {
            Some(n) => object2(
                "type",
                Json::str_of("function"),
                "function",
                object1("name", Json::str_of(n)),
            ),
            None => deep_clone(choice),
        },
        _ => deep_clone(choice),
    }
}

/// A string member's text, or empty.
pub open spec fn str_or_empty_v(j: JsonV, key: Seq<char>) -> Seq<char> {
    match get_str_v(j, key) {
        Some(s) => s,
        None => Seq::empty(),
    }
}

fn str_or_empty(j: &Json, key: &str) -> (r: String)
    ensures
        r@ == str_or_empty_v(j@, key@),
{
    match j.get_str(key) {
        Some(s) => s.to_string(),
        None => String::new(),
    }
}

/// A Chat tool call.
pub open spec fn chat_tool_call_v(id: Seq<char>, name: Seq<char>, arguments: Seq<char>) -> JsonV {
    JsonV::Object(
        seq![
            ("id"@, JsonV::Str(id)),
            ("type"@, JsonV::Str("function"@)),
            ("function"@, JsonV::Object(
                seq![("name"@, JsonV::Str(name)), ("arguments"@, JsonV::Str(arguments))],
            )),
        ],
    )
}

fn chat_tool_call(id: String, name: String, arguments: String) -> (r: Json)
    ensures
        r@ == chat_tool_call_v(id@, name@, arguments@),
{
    let function = object2("name", Json::Str(name), "arguments", Json::Str(arguments));
    object3("id", Json::Str(id), "type", Json::str_of("function"), "function", function)
}

/// The Chat tool call for a Responses `function_call` item.
pub open spec fn function_call_to_chat_v(item: JsonV) -> JsonV {
    chat_tool_call_v(
        output_call_id_v(item),
        str_or_empty_v(item, "name"@),
        canonical_tool_arguments_v(get_v(item, "arguments"@)),
    )
}

pub fn responses_function_call_to_chat_tool_call(item: &Json, tool_context: &CodexToolContext) -> (r: Json)
    ensures
        r@ == function_call_to_chat_v(item@),
{
    chat_tool_call(
        responses_output_call_id(item),
        str_or_empty(item, "name"),
        canonicalize_tool_arguments(item.get("arguments")),
    )
}

/// The Chat tool call for a Responses `custom_tool_call` item: its input
/// text becomes the `input` member of the arguments.
pub open spec fn custom_tool_call_to_chat_v(item: JsonV) -> JsonV {
    chat_tool_call_v(
        output_call_id_v(item),
        str_or_empty_v(item, "name"@),
        canonical_v(JsonV::Object(seq![("input"@, JsonV::Str(str_or_empty_v(item, "input"@)))])),
    )
}

pub fn responses_custom_tool_call_to_chat_tool_call(item: &Json) -> (r: Json)
    ensures
        r@ == custom_tool_call_to_chat_v(item@),
{
    let args = object1("input", Json::Str(str_or_empty(item, "input")));
    chat_tool_call(
        responses_output_call_id(item),
        str_or_empty(item, "name"),
        canonical_json_string(&args),
    )
}

/// The Chat tool call for a Responses `tool_search_call` item.
pub open spec fn tool_search_call_to_chat_v(item: JsonV) -> JsonV {
    chat_tool_call_v(
        output_call_id_v(item),
        "tool_search"@,
        canonical_tool_arguments_v(get_v(item, "arguments"@)),
    )
}

pub fn responses_tool_search_call_to_chat_tool_call(item: &Json) -> (r: Json)
    ensures
        r@ == tool_search_call_to_chat_v(item@),
{
    chat_tool_call(
        responses_output_call_id(item),
        "tool_search".to_string(),
        canonicalize_tool_arguments(item.get("arguments")),
    )
}

/// The Responses item id for a Chat tool call: `fc_` and the call id.
pub open spec fn tool_call_item_id_v(call_id: Seq<char>) -> Seq<char> {
    "fc_"@ + call_id
}

pub fn response_tool_call_item_id_from_chat_name(call_id: &str, chat_name: &str, tool_context: &CodexToolContext) -> (r: String)
    ensures
        r@ == tool_call_item_id_v(call_id@),
{
    concat2("fc_", call_id)
}

/// A Responses `function_call` output item; a non-empty reasoning text
/// travels with it as `reasoning_content`.
pub open spec fn function_call_item_v(
    item_id: Seq<char>,
    status: Seq<char>,
    call_id: Seq<char>,
    name: Seq<char>,
    arguments: Seq<char>,
    reasoning: Option<Seq<char>>,
) -> JsonV {
    JsonV::Object(
        seq![
            ("id"@, JsonV::Str(item_id)),
            ("type"@, JsonV::Str("function_call"@)),
            ("status"@, JsonV::Str(status)),
            ("call_id"@, JsonV::Str(call_id)),
            ("name"@, JsonV::Str(name)),
            ("arguments"@, JsonV::Str(arguments)),
        ] + match reasoning {
            Some(r) => if r.len() > 0 {
                seq![("reasoning_content"@, JsonV::Str(r))]
            } else {
                Seq::empty()
            },
            None => Seq::empty(),
        },
    )
}

pub fn response_function_call_item(
    item_id: &str,
    status: &str,
    call_id: &str,
    name: &str,
    arguments: &str,
    reasoning: Option<&str>,
) -> (r: Json)
    ensures
        r@ == function_call_item_v(
            item_id@,
            status@,
            call_id@,
            name@,
            arguments@,
            match reasoning {
                Some(t) => Some(t@),
                None => None,
            },
        ),
{
    let mut e: Vec<(String, Json)> = Vec::new();
    e.push(("id".to_string(), Json::str_of(item_id)));
    e.push(("type".to_string(), Json::str_of("function_call")));
    e.push(("status".to_string(), Json::str_of(status)));
    e.push(("call_id".to_string(), Json::str_of(call_id)));
    e.push(("name".to_string(), Json::str_of(name)));
    e.push(("arguments".to_string(), Json::str_of(arguments)));
    let ghost base = view_entries(e@);
    proof {
        assert(base =~= seq![
            ("id"@, JsonV::Str(item_id@)),
            ("type"@, JsonV::Str("function_call"@)),
            ("status"@, JsonV::Str(status@)),
            ("call_id"@, JsonV::Str(call_id@)),
            ("name"@, JsonV::Str(name@)),
            ("arguments"@, JsonV::Str(arguments@)),
        ]);
    }
    match reasoning {
        Some(t) => if !t.is_empty() {
            let k = "reasoning_content".to_string();
            let v = Json::str_of(t);
            proof {
                lemma_view_entries_push(e@, k, v);
            }
            e.push((k, v));
            proof {
                assert(view_entries(e@) =~= base + seq![("reasoning_content"@, JsonV::Str(t@))]);
            }
        } else {
            assert(view_entries(e@) =~= base + Seq::<(Seq<char>, JsonV)>::empty());
        },
        None => {
            assert(view_entries(e@) =~= base + Seq::<(Seq<char>, JsonV)>::empty());
        },
    }
    Json::Object(e)
}

/// A Responses `custom_tool_call` output item; a non-empty reasoning text
/// travels with it as `reasoning_content`.
pub open spec fn custom_tool_call_item_v(
    item_id: Seq<char>,
    status: Seq<char>,
    call_id: Seq<char>,
    name: Seq<char>,
    input: Seq<char>,
    reasoning: Option<Seq<char>>,
) -> JsonV {
    JsonV::Object(
        seq![
            ("id"@, JsonV::Str(item_id)),
            ("type"@, JsonV::Str("custom_tool_call"@)),
            ("status"@, JsonV::Str(status)),
            ("call_id"@, JsonV::Str(call_id)),
            ("name"@, JsonV::Str(name)),
            ("input"@, JsonV::Str(input)),
        ] + match reasoning {
            Some(r) => if r.len() > 0 {
                seq![("reasoning_content"@, JsonV::Str(r))]
            } else {
                Seq::empty()
            },
            None => Seq::empty(),
        },
    )
}

fn response_custom_tool_call_item(
    item_id: &str,
    status: &str,
    call_id: &str,
    name: &str,
    input: &str,
    reasoning: Option<&str>,
) -> (r: Json)
    ensures
        r@ == custom_tool_call_item_v(
            item_id@,
            status@,
            call_id@,
            name@,
            input@,
            match reasoning {
                Some(t) => Some(t@),
                None => None,
            },
        ),
{
    let mut e: Vec<(String, Json)> = Vec::new();
    e.push(("id".to_string(), Json::str_of(item_id)));
    e.push(("type".to_string(), Json::str_of("custom_tool_call")));
    e.push(("status".to_string(), Json::str_of(status)));
    e.push(("call_id".to_string(), Json::str_of(call_id)));
    e.push(("name".to_string(), Json::str_of(name)));
    e.push(("input".to_string(), Json::str_of(input)));
    let ghost base = view_entries(e@);
    proof {
        assert(base =~= seq![
            ("id"@, JsonV::Str(item_id@)),
            ("type"@, JsonV::Str("custom_tool_call"@)),
            ("status"@, JsonV::Str(status@)),
            ("call_id"@, JsonV::Str(call_id@)),
            ("name"@, JsonV::Str(name@)),
            ("input"@, JsonV::Str(input@)),
        ]);
    }
    match reasoning {
        Some(t) => if !t.is_empty() {
            let k = "reasoning_content".to_string();
            let v = Json::str_of(t);
            proof {
                lemma_view_entries_push(e@, k, v);
            }
            e.push((k, v));
            proof {
                assert(view_entries(e@) =~= base + seq![("reasoning_content"@, JsonV::Str(t@))]);
            }
        } else {
            assert(view_entries(e@) =~= base + Seq::<(Seq<char>, JsonV)>::empty());
        },
        None => {
            assert(view_entries(e@) =~= base + Seq::<(Seq<char>, JsonV)>::empty());
        },
    }
    Json::Object(e)
}

/// The string member `key` of the JSON object that `text` holds, as
/// serde_json reads the text; `None` where the text is no JSON, holds no
/// object, or the member is missing or not a string.
pub uninterp spec fn json_text_str_member(text: Seq<char>, key: Seq<char>) -> Option<Seq<char>>;

/// Reads `text` with `serde_json::from_str` into a `serde_json::Value` and
/// takes its member `key` as a string (`Value::get`, `Value::as_str`). The
/// contract names the result: which texts serde_json accepts is not
/// restated here.
#[verifier::external_body]
fn str_member_of_json_text(text: &str, key: &str) -> (r: Option<String>)
    ensures
        match json_text_str_member(text@, key@) {
            Some(m) => r is Some && r->0@ == m,
            None => r is None,
        },
{
    serde_json::from_str::<serde_json::Value>(text).ok().and_then(
        |v| v.get(key).and_then(|m| m.as_str()).map(|m| m.to_string()),
    )
}

/// The input of a custom tool call from its Chat arguments: the `input`
/// member when the arguments are a JSON object with a string `input`,
/// otherwise the arguments text (empty when blank).
pub open spec fn custom_input_v(arguments: Seq<char>) -> Seq<char> {
    match json_text_str_member(arguments, "input"@) {
        Some(m) => m,
        None => custom_tool_input_v(arguments),
    }
}

/// The Responses item for a Chat tool call: a `custom_tool_call` item when
/// the name is one of `customs`, otherwise a `function_call` item.
pub open spec fn tool_call_from_chat_name_v(
    item_id: Seq<char>,
    status: Seq<char>,
    call_id: Seq<char>,
    name: Seq<char>,
    arguments: Seq<char>,
    reasoning: Option<Seq<char>>,
    customs: Seq<Seq<char>>,
) -> JsonV {
    if customs.contains(name) {
        custom_tool_call_item_v(item_id, status, call_id, name, custom_input_v(arguments), reasoning)
    } else {
        function_call_item_v(item_id, status, call_id, name, arguments, reasoning)
    }
}

/// The Responses item for a Chat tool call, by the context's custom tools.
pub fn response_tool_call_item_from_chat_name(
    item_id: &str,
    status: &str,
    call_id: &str,
    chat_name: &str,
    arguments: &str,
    reasoning: Option<&str>,
    tool_context: &CodexToolContext,
) -> (r: Json)
    ensures
        r@ == tool_call_from_chat_name_v(
            item_id@,
            status@,
            call_id@,
            chat_name@,
            arguments@,
            match reasoning {
                Some(t) => Some(t@),
                None => None,
            },
            tool_context.custom_tool_names(),
        ),
{
    if tool_context.is_custom_tool_chat_name(chat_name) {
        let input = match str_member_of_json_text(arguments, "input") {
            Some(m) => m,
            None => custom_tool_input_from_chat_arguments(arguments),
        };
        response_custom_tool_call_item(item_id, status, call_id, chat_name, input.as_str(), reasoning)
    } else {
        response_function_call_item(item_id, status, call_id, chat_name, arguments, reasoning)
    }
}

/// A custom tool's input from Chat arguments: empty when blank, the
/// arguments text otherwise.
pub open spec fn custom_tool_input_v(arguments: Seq<char>) -> Seq<char> {
    if is_blank(arguments) {
        Seq::empty()
    } else {
        arguments
    }
}

pub fn custom_tool_input_from_chat_arguments(arguments: &str) -> (r: String)
    ensures
        r@ == custom_tool_input_v(arguments@),
{
    if blank(arguments) {
        return String::new();
    }
    arguments.to_string()
}

} // verus!
