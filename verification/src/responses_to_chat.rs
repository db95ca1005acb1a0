//! A Responses API request as a Chat Completions request, keeping tools and
//! the multi-turn tool history.
use vstd::prelude::*;

use crate::builtin_tools::{
    builtin_call_id_v, builtin_call_v, builtin_result_content_v, builtin_tool_call_id,
    builtin_tool_result_content, output_call_id_v, responses_builtin_tool_call_to_chat_with_id,
    responses_output_call_id, responses_tool_output_content, tool_output_content_v,
};
use crate::canonical::{canonical_json_string, canonical_v};
use crate::chat_content::{
    chat_content_v, instruction_text, instruction_text_v, map_role_for_upstream, map_role_v,
    normalize_messages_for_upstream, normalize_messages_v, responses_content_to_chat_content,
};
use crate::chat_messages::{
    finalize_chat_request, finalize_v, repair_messages_for_upstream_with_options,
    repair_options_for_provider, repair_v, role_is_v, tool_outputs_fit_v, tool_output_fits_v,
};
use crate::codex_chat::{
    append_reasoning_content, append_reasoning_v, extract_reasoning_field_text,
    extract_reasoning_summary_text, para_sep, para_sep_str, reasoning_field_v,
    reasoning_summary_v,
};
use crate::config::{ProviderConfig, ProviderV};
use crate::json::{
    deep_clone, get_array_v, get_bool_v, get_str_v, get_v, lemma_view_items_empty,
    lemma_view_items_push, object2, object3, set_v, view_items, Json, JsonV,
};
use crate::reasoning::{needs_reasoning_content_v, opt_view};
use crate::reasoning_options::{apply_reasoning_options, apply_reasoning_options_v};
use crate::text::{
    ascii_lowercase, concat3, contains, contains_seq, lower_seq, starts_with, starts_with_seq,
    str_eq, trim, trim_seq,
};
use crate::tool_context::{
    build_codex_tool_context_from_request, custom_tool_call_to_chat_v, function_call_to_chat_v,
    request_custom_names_v, request_tools_v, responses_custom_tool_call_to_chat_tool_call,
    responses_function_call_to_chat_tool_call, responses_tool_choice_to_chat,
    responses_tool_search_call_to_chat_tool_call, tool_choice_v, tool_search_call_to_chat_v,
    CodexToolContext,
};

verus! {

// ---------------------------------------------------------------------------
// Pending reasoning

/// Pending reasoning with `r` added: its trimmed text, after a blank line
/// when some is already pending. Blank or missing text changes nothing.
pub open spec fn append_pending_v(p: Option<Seq<char>>, r: Option<Seq<char>>) -> Option<Seq<char>> {
    match r {
        None => p,
        Some(t0) => {
            let t = trim_seq(t0);
            if t.len() == 0 {
                p
            } else {
                match p {
                    Some(e) => if e.len() > 0 {
                        Some(e + para_sep() + t)
                    } else {
                        Some(t)
                    },
                    None => Some(t),
                }
            }
        },
    }
}

/// As [`append_pending_v`], but text already contained in the pending
/// reasoning is not added again.
pub open spec fn append_unique_pending_v(p: Option<Seq<char>>, r: Option<Seq<char>>) -> Option<
    Seq<char>,
> {
    match r {
        None => p,
        Some(t0) => {
            let t = trim_seq(t0);
            if t.len() == 0 {
                p
            } else {
                match p {
                    Some(e) => if contains_seq(e, t) {
                        p
                    } else if e.len() > 0 {
                        Some(e + para_sep() + t)
                    } else {
                        Some(t)
                    },
                    None => Some(t),
                }
            }
        },
    }
}

fn append_pending_reasoning(pending: &mut Option<String>, reasoning: Option<String>)
    ensures
        opt_view(*final(pending)) == append_pending_v(opt_view(*old(pending)), opt_view(reasoning)),
{
    let r = match reasoning {
        Some(r) => r,
        None => {
            return ;
        },
    };
    let t = trim(r.as_str());
    if t.as_str().is_empty() {
        return ;
    }
    let mut cur: Option<String> = None;
    std::mem::swap(pending, &mut cur);
    match cur {
        Some(e) => if !e.as_str().is_empty() {
            let mut e = e;
            crate::text::push_str(&mut e, para_sep_str());
            crate::text::push_str(&mut e, t.as_str());
            *pending = Some(e);
        } else {
            *pending = Some(t);
        },
        None => {
            *pending = Some(t);
        },
    }
}

fn append_unique_pending_reasoning(pending: &mut Option<String>, reasoning: Option<String>)
    ensures
        opt_view(*final(pending)) == append_unique_pending_v(
            opt_view(*old(pending)),
            opt_view(reasoning),
        ),
{
    let r = match reasoning {
        Some(r) => r,
        None => {
            return ;
        },
    };
    let t = trim(r.as_str());
    if t.as_str().is_empty() {
        return ;
    }
    let mut cur: Option<String> = None;
    std::mem::swap(pending, &mut cur);
    match cur {
        Some(e) => if contains(e.as_str(), t.as_str()) {
            *pending = Some(e);
        } else if !e.as_str().is_empty() {
            let mut e = e;
            crate::text::push_str(&mut e, para_sep_str());
            crate::text::push_str(&mut e, t.as_str());
            *pending = Some(e);
        } else {
            *pending = Some(t);
        },
        None => {
            *pending = Some(t);
        },
    }
}

// ---------------------------------------------------------------------------
// Messages built during the conversion

/// A Chat message with a role and content.
pub open spec fn message_v(role: Seq<char>, content: JsonV) -> JsonV {
    JsonV::Object(seq![("role"@, JsonV::Str(role)), ("content"@, content)])
}

/// A tool message answering `id`.
pub open spec fn tool_message_v(id: Seq<char>, content: Seq<char>) -> JsonV {
    JsonV::Object(
        seq![
            ("role"@, JsonV::Str("tool"@)),
            ("tool_call_id"@, JsonV::Str(id)),
            ("content"@, JsonV::Str(content)),
        ],
    )
}

fn tool_message(id: String, content: String) -> (r: Json)
    ensures
        r@ == tool_message_v(id@, content@),
{
    object3("role", Json::str_of("tool"), "tool_call_id", Json::Str(id), "content", Json::Str(content))
}

/// An assistant message that makes the given tool calls.
pub open spec fn tool_call_message_v(calls: Seq<JsonV>) -> JsonV {
    JsonV::Object(
        seq![
            ("role"@, JsonV::Str("assistant"@)),
            ("content"@, JsonV::Null),
            ("tool_calls"@, JsonV::Array(calls)),
        ],
    )
}

/// `m` with the pending reasoning attached, if any.
pub open spec fn with_pending_v(m: JsonV, p: Option<Seq<char>>) -> JsonV {
    match p {
        Some(r) => append_reasoning_v(m, r),
        None => m,
    }
}

/// The state of the conversion of an input list.
pub struct ExtractV {
    pub messages: Seq<JsonV>,
    pub pending: Seq<JsonV>,
    pub reasoning: Option<Seq<char>>,
    pub last: Option<nat>,
}

/// The state after flushing pending tool calls into one assistant message
/// (carrying the pending reasoning), which becomes the last assistant.
pub open spec fn flush_v(s: ExtractV) -> ExtractV {
    if s.pending.len() == 0 {
        s
    } else {
        ExtractV {
            messages: s.messages.push(with_pending_v(tool_call_message_v(s.pending), s.reasoning)),
            pending: Seq::empty(),
            reasoning: None,
            last: Some(s.messages.len()),
        }
    }
}

/// The last assistant index after pushing `m` onto `len` messages: the new
/// index for an assistant, unchanged for a tool message, gone otherwise.
pub open spec fn update_last_v(len: nat, m: JsonV, last: Option<nat>) -> Option<nat> {
    match get_str_v(m, "role"@) {
        Some(r) => if r == "assistant"@ {
            Some(len)
        } else if r == "tool"@ {
            last
        } else {
            None
        },
        None => None,
    }
}

/// The state with message `m` appended and the last assistant updated.
pub open spec fn push_message_v(s: ExtractV, m: JsonV) -> ExtractV {
    ExtractV {
        messages: s.messages.push(m),
        last: update_last_v(s.messages.len(), m, s.last),
        ..s
    }
}

/// The state with a message appended and nothing else changed.
pub open spec fn push_plain_v(s: ExtractV, m: JsonV) -> ExtractV {
    ExtractV { messages: s.messages.push(m), ..s }
}

/// The Chat message for a Responses message item, and the pending
/// reasoning after it: an assistant message takes the pending reasoning
/// (with its own added); any other message drops it.
pub open spec fn message_item_v(item: JsonV, p: Option<Seq<char>>) -> (JsonV, Option<Seq<char>>) {
    let role = match get_str_v(item, "role"@) {
        Some(r) => r,
        None => "user"@,
    };
    let chat_role = map_role_v(role);
    let content = match get_v(item, "content"@) {
        Some(c) => chat_content_v(c),
        None => JsonV::Null,
    };
    let m = message_v(chat_role, content);
    if chat_role == "assistant"@ {
        (with_pending_v(m, append_pending_v(p, reasoning_field_v(item))), None)
    } else {
        (m, None)
    }
}

/// A user message standing for a referenced earlier item.
pub open spec fn item_reference_v(item: JsonV) -> Option<JsonV> {
    match get_str_v(item, "id"@) {
        Some(id) => if id.len() > 0 {
            Some(message_v("user"@, JsonV::Str("[Referenced prior item: "@ + id + "]"@)))
        } else {
            None
        },
        None => None,
    }
}

/// Messages with reasoning text added to the last assistant message; the
/// flag says whether the text was taken (blank text counts as taken).
pub open spec fn attach_to_last_v(ms: Seq<JsonV>, last: Option<nat>, r: Option<Seq<char>>) -> (
    bool,
    Seq<JsonV>,
) {
    match r {
        None => (true, ms),
        Some(t0) => {
            let t = trim_seq(t0);
            if t.len() == 0 {
                (true, ms)
            } else {
                match last {
                    None => (false, ms),
                    Some(i) => if i < ms.len() && role_is_v(ms[i as int], "assistant"@) {
                        (true, ms.update(i as int, append_reasoning_v(ms[i as int], t)))
                    } else {
                        (false, ms)
                    },
                }
            }
        },
    }
}

/// A built-in tool item as an assistant call and its tool answer.
pub open spec fn builtin_history_v(s: ExtractV, item: JsonV, ty: Seq<char>) -> ExtractV {
    let f = flush_v(s);
    let id = builtin_call_id_v(item);
    let a = with_pending_v(tool_call_message_v(seq![builtin_call_v(item, ty, id)]), f.reasoning);
    ExtractV {
        messages: f.messages.push(a).push(tool_message_v(id, builtin_result_content_v(item, ty))),
        pending: f.pending,
        reasoning: None,
        last: Some(f.messages.len()),
    }
}

/// A message-like item appended after flushing, when it has a role or
/// content.
pub open spec fn message_step_v(s: ExtractV, item: JsonV) -> ExtractV {
    let f = flush_v(s);
    if get_v(item, "role"@) is Some || get_v(item, "content"@) is Some {
        let (m, p) = message_item_v(item, f.reasoning);
        push_message_v(ExtractV { reasoning: p, ..f }, m)
    } else {
        f
    }
}

/// The item types Codex uses for self-contained built-in tool calls.
pub open spec fn is_self_contained_builtin_v(t: Seq<char>) -> bool {
    t == "web_search_call"@ || t == "file_search_call"@ || t == "code_interpreter_call"@ || t
        == "image_generation_call"@
}

/// One Responses input item folded into the conversion state.
pub open spec fn step_v(s: ExtractV, item: JsonV) -> ExtractV {
    let ty = get_str_v(item, "type"@);
    let t = match ty {
        Some(t) => t,
        None => Seq::empty(),
    };
    if ty == Some("function_call"@) {
        ExtractV {
            reasoning: append_unique_pending_v(s.reasoning, reasoning_field_v(item)),
            pending: s.pending.push(function_call_to_chat_v(item)),
            ..s
        }
    } else if ty == Some("custom_tool_call"@) {
        ExtractV {
            reasoning: append_unique_pending_v(s.reasoning, reasoning_field_v(item)),
            pending: s.pending.push(custom_tool_call_to_chat_v(item)),
            ..s
        }
    } else if ty == Some("tool_search_call"@) {
        ExtractV {
            reasoning: append_unique_pending_v(s.reasoning, reasoning_field_v(item)),
            pending: s.pending.push(tool_search_call_to_chat_v(item)),
            ..s
        }
    } else if ty == Some("local_shell_call"@) {
        ExtractV {
            reasoning: append_unique_pending_v(s.reasoning, reasoning_field_v(item)),
            pending: s.pending.push(
                builtin_call_v(item, "local_shell_call"@, builtin_call_id_v(item)),
            ),
            ..s
        }
    } else if ty is Some && is_self_contained_builtin_v(t) {
        builtin_history_v(
            ExtractV {
                reasoning: append_unique_pending_v(s.reasoning, reasoning_field_v(item)),
                ..s
            },
            item,
            t,
        )
    } else if ty == Some("function_call_output"@) || ty == Some("local_shell_call_output"@) {
        push_plain_v(
            flush_v(s),
            tool_message_v(output_call_id_v(item), tool_output_content_v(item)),
        )
    } else if ty == Some("custom_tool_call_output"@) || ty == Some("tool_search_output"@) {
        push_plain_v(flush_v(s), tool_message_v(output_call_id_v(item), canonical_v(item)))
    } else if ty == Some("reasoning"@) {
        let r = reasoning_summary_v(item);
        if s.pending.len() == 0 && attach_to_last_v(s.messages, s.last, r).0 {
            ExtractV { messages: attach_to_last_v(s.messages, s.last, r).1, ..s }
        } else {
            ExtractV { reasoning: append_pending_v(s.reasoning, r), ..s }
        }
    } else if ty == Some("item_reference"@) {
        let f = flush_v(s);
        match item_reference_v(item) {
            Some(m) => push_message_v(f, m),
            None => f,
        }
    } else {
        message_step_v(s, item)
    }
}

/// Items folded into the state, in order.
pub open spec fn fold_items_v(s: ExtractV, items: Seq<JsonV>) -> ExtractV
    decreases items.len(),
{
    if items.len() == 0 {
        s
    } else {
        step_v(fold_items_v(s, items.drop_last()), items.last())
    }
}

/// The messages for a Responses `input` appended to `messages`: a string is
/// one user message, an array is folded item by item, an object is one
/// item; pending tool calls are flushed at the end.
pub open spec fn input_messages_v(messages: Seq<JsonV>, input: JsonV) -> Seq<JsonV> {
    let s0 = ExtractV { messages, pending: Seq::empty(), reasoning: None, last: None };
    let s1 = match input {
        JsonV::Str(t) => push_plain_v(s0, message_v("user"@, JsonV::Str(t))),
        JsonV::Array(items) => fold_items_v(s0, items),
        JsonV::Object(_) => step_v(s0, input),
        _ => s0,
    };
    flush_v(s1).messages
}

/// The Chat messages of a Responses request: a system message with its
/// non-blank instructions, then its input.
pub open spec fn extract_messages_v(request: JsonV) -> Seq<JsonV> {
    let sys = match get_v(request, "instructions"@) {
        Some(i) => {
            let t = instruction_text_v(i);
            if trim_seq(t).len() > 0 {
                seq![message_v("system"@, JsonV::Str(t))]
            } else {
                Seq::empty()
            }
        },
        None => Seq::empty(),
    };
    match get_v(request, "input"@) {
        Some(input) => input_messages_v(sys, input),
        None => sys,
    }
}

// ---------------------------------------------------------------------------
// The executable conversion state

struct ExtractState {
    messages: Vec<Json>,
    pending_tool_calls: Vec<Json>,
    pending_reasoning: Option<String>,
    last_assistant_index: Option<usize>,
}

impl View for ExtractState {
    type V = ExtractV;

    closed spec fn view(&self) -> ExtractV {
        ExtractV {
            messages: view_items(self.messages@),
            pending: view_items(self.pending_tool_calls@),
            reasoning: opt_view(self.pending_reasoning),
            last: match self.last_assistant_index {
                Some(i) => Some(i as nat),
                None => None,
            },
        }
    }
}

fn message(role: &str, content: Json) -> (r: Json)
    ensures
        r@ == message_v(role@, content@),
{
    object2("role", Json::str_of(role), "content", content)
}

fn attach_pending_reasoning_to_assistant(m: &mut Json, pending: &mut Option<String>)
    requires
        old(m)@ is Object,
    ensures
        final(m)@ == with_pending_v(old(m)@, opt_view(*old(pending))),
        *final(pending) is None,
        final(m)@ is Object,
{
    let mut cur: Option<String> = None;
    std::mem::swap(pending, &mut cur);
    match cur {
        Some(r) => {
            append_reasoning_content(m, r.as_str());
        },
        None => {},
    }
}

fn type_is(ty: Option<&str>, x: &str) -> (r: bool)
    ensures
        r == (ty is Some && ty->0@ == x@),
{
    match ty {
        Some(t) => str_eq(t, x),
        None => false,
    }
}

impl ExtractState {
    fn push_message(&mut self, m: Json)
        ensures
            final(self)@ == push_message_v(old(self)@, m@),
    {
        let len = self.messages.len();
        let role: u8 = match m.get_str("role") {
            Some(r) => if str_eq(r, "assistant") {
                1
            } else if str_eq(r, "tool") {
                2
            } else {
                0
            },
            None => 0,
        };
        if role == 1 {
            self.last_assistant_index = Some(len);
        } else if role == 0 {
            self.last_assistant_index = None;
        }
        let ghost before = self.messages@;
        self.messages.push(m);
        proof {
            lemma_view_items_push(before, self.messages@.last());
            assert(self.messages@ =~= before.push(self.messages@.last()));
        }
    }

    fn push_plain(&mut self, m: Json)
        ensures
            final(self)@ == push_plain_v(old(self)@, m@),
    {
        let ghost before = self.messages@;
        self.messages.push(m);
        proof {
            lemma_view_items_push(before, self.messages@.last());
            assert(self.messages@ =~= before.push(self.messages@.last()));
        }
    }

    fn push_pending(&mut self, call: Json)
        ensures
            final(self)@ == (ExtractV { pending: old(self)@.pending.push(call@), ..old(self)@ }),
    {
        let ghost before = self.pending_tool_calls@;
        self.pending_tool_calls.push(call);
        proof {
            lemma_view_items_push(before, self.pending_tool_calls@.last());
            assert(self.pending_tool_calls@ =~= before.push(self.pending_tool_calls@.last()));
        }
    }

    fn flush_pending_tool_calls(&mut self)
        ensures
            final(self)@ == flush_v(old(self)@),
    {
        if self.pending_tool_calls.len() == 0 {
            return ;
        }
        let mut calls: Vec<Json> = Vec::new();
        std::mem::swap(&mut calls, &mut self.pending_tool_calls);
        let mut m = object3("role", Json::str_of("assistant"), "content", Json::Null, "tool_calls", Json::Array(calls));
        attach_pending_reasoning_to_assistant(&mut m, &mut self.pending_reasoning);
        self.last_assistant_index = Some(self.messages.len());
        let ghost before = self.messages@;
        self.messages.push(m);
        proof {
            lemma_view_items_empty();
            lemma_view_items_push(before, self.messages@.last());
            assert(self.messages@ =~= before.push(self.messages@.last()));
        }
    }

    fn append_self_contained_builtin_tool_history(&mut self, item: &Json, item_type: &str)
        ensures
            final(self)@ == builtin_history_v(old(self)@, item@, item_type@),
    {
        self.flush_pending_tool_calls();
        let call_id = builtin_tool_call_id(item);
        let call = responses_builtin_tool_call_to_chat_with_id(item, item_type, call_id.as_str());
        let mut calls: Vec<Json> = Vec::new();
        calls.push(call);
        proof {
            lemma_view_items_empty();
            assert(view_items(calls@) =~= seq![calls@[0]@]);
        }
        let mut a = object3("role", Json::str_of("assistant"), "content", Json::Null, "tool_calls", Json::Array(calls));
        attach_pending_reasoning_to_assistant(&mut a, &mut self.pending_reasoning);
        self.last_assistant_index = Some(self.messages.len());
        let content = builtin_tool_result_content(item, item_type);
        let t = tool_message(call_id, content);
        let ghost before = self.messages@;
        self.messages.push(a);
        self.messages.push(t);
        proof {
            let b1 = before.push(self.messages@[before.len() as int]);
            lemma_view_items_push(before, self.messages@[before.len() as int]);
            lemma_view_items_push(b1, self.messages@.last());
            assert(self.messages@ =~= b1.push(self.messages@.last()));
        }
    }

    fn attach_reasoning_to_last_assistant(&mut self, reasoning: &Option<String>) -> (r: bool)
        ensures
            r == attach_to_last_v(old(self)@.messages, old(self)@.last, opt_view(*reasoning)).0,
            final(self)@ == (ExtractV {
                messages: attach_to_last_v(
                    old(self)@.messages,
                    old(self)@.last,
                    opt_view(*reasoning),
                ).1,
                ..old(self)@
            }),
    {
        let t = match reasoning {
            Some(r) => trim(r.as_str()),
            None => {
                return true;
            },
        };
        if t.as_str().is_empty() {
            return true;
        }
        let index = match self.last_assistant_index {
            Some(i) => i,
            None => {
                return false;
            },
        };
        if index >= self.messages.len() {
            return false;
        }
        if !crate::chat_messages::role_is(&self.messages[index], "assistant") {
            return false;
        }
        let ghost before = self.messages@;
        let mut m = deep_clone(&self.messages[index]);
        append_reasoning_content(&mut m, t.as_str());
        self.messages.set(index, m);
        proof {
            assert(view_items(self.messages@) =~= view_items(before).update(
                index as int,
                self.messages@[index as int]@,
            ));
        }
        true
    }

    fn responses_message_item_to_chat_message(&mut self, item: &Json)
        ensures
            final(self)@ == message_step_v(old(self)@, item@),
    {
        self.flush_pending_tool_calls();
        if item.get("role").is_some() || item.get("content").is_some() {
            let role_in = match item.get_str("role") {
                Some(r) => r,
                None => "user",
            };
            let chat_role = map_role_for_upstream(role_in);
            let content = match item.get("content") {
                Some(c) => responses_content_to_chat_content(c),
                None => Json::Null,
            };
            let mut m = message(chat_role, content);
            let mut p: Option<String> = None;
            std::mem::swap(&mut p, &mut self.pending_reasoning);
            if str_eq(chat_role, "assistant") {
                append_pending_reasoning(&mut p, extract_reasoning_field_text(item));
                attach_pending_reasoning_to_assistant(&mut m, &mut p);
            }
            self.push_message(m);
        }
    }

    fn append_responses_item_as_chat_message(&mut self, item: &Json, tool_context: &CodexToolContext)
        ensures
            final(self)@ == step_v(old(self)@, item@),
    {
        let ty = item.get_str("type");
        let t: &str = match ty {
            Some(t) => t,
            None => {
                proof {
                    reveal_strlit("");
                }
                ""
            },
        };
        if type_is(ty, "function_call") {
            append_unique_pending_reasoning(&mut self.pending_reasoning, extract_reasoning_field_text(item));
            self.push_pending(responses_function_call_to_chat_tool_call(item, tool_context));
        } else if type_is(ty, "custom_tool_call") {
            append_unique_pending_reasoning(&mut self.pending_reasoning, extract_reasoning_field_text(item));
            self.push_pending(responses_custom_tool_call_to_chat_tool_call(item));
        } else if type_is(ty, "tool_search_call") {
            append_unique_pending_reasoning(&mut self.pending_reasoning, extract_reasoning_field_text(item));
            self.push_pending(responses_tool_search_call_to_chat_tool_call(item));
        } else if type_is(ty, "local_shell_call") {
            append_unique_pending_reasoning(&mut self.pending_reasoning, extract_reasoning_field_text(item));
            let id = builtin_tool_call_id(item);
            self.push_pending(responses_builtin_tool_call_to_chat_with_id(item, "local_shell_call", id.as_str()));
        } else if type_is(ty, "web_search_call") || type_is(ty, "file_search_call") || type_is(ty, "code_interpreter_call") || type_is(ty, "image_generation_call") {
            append_unique_pending_reasoning(&mut self.pending_reasoning, extract_reasoning_field_text(item));
            self.append_self_contained_builtin_tool_history(item, t);
        } else if type_is(ty, "function_call_output") || type_is(ty, "local_shell_call_output") {
            self.flush_pending_tool_calls();
            let m = tool_message(responses_output_call_id(item), responses_tool_output_content(item));
            self.push_plain(m);
        } else if type_is(ty, "custom_tool_call_output") || type_is(ty, "tool_search_output") {
            self.flush_pending_tool_calls();
            let m = tool_message(responses_output_call_id(item), canonical_json_string(item));
            self.push_plain(m);
        } else if type_is(ty, "reasoning") {
            let r = extract_reasoning_summary_text(item);
            let attached = self.pending_tool_calls.len() == 0 && self.attach_reasoning_to_last_assistant(&r);
            if !attached {
                append_pending_reasoning(&mut self.pending_reasoning, r);
            }
        } else if type_is(ty, "item_reference") {
            self.flush_pending_tool_calls();
            match item.get_str("id") {
                Some(id) => if !id.is_empty() {
                    let text = concat3("[Referenced prior item: ", id, "]");
                    let m = message("user", Json::Str(text));
                    self.push_message(m);
                },
                None => {},
            }
        } else {
            self.responses_message_item_to_chat_message(item);
        }
    }
}

fn append_responses_input_as_chat_messages(
    input: &Json,
    messages: Vec<Json>,
    tool_context: &CodexToolContext,
) -> (r: Vec<Json>)
    ensures
        view_items(r@) == input_messages_v(view_items(messages@), input@),
{
    let mut s = ExtractState {
        messages,
        pending_tool_calls: Vec::new(),
        pending_reasoning: None,
        last_assistant_index: None,
    };
    proof {
        lemma_view_items_empty();
    }
    let ghost s0 = s@;
    match input {
        Json::Str(t) => {
            s.push_plain(message("user", Json::Str(t.clone())));
        },
        Json::Array(items) => {
            let ghost iv = view_items(items@);
            let mut i: usize = 0;
            proof {
                assert(iv.take(0) =~= Seq::<JsonV>::empty());
            }
            while i < items.len()
                invariant
                    i <= items.len(),
                    iv == view_items(items@),
                    s@ == fold_items_v(s0, iv.take(i as int)),
                decreases items.len() - i,
            {
                proof {
                    assert(iv.take(i + 1).drop_last() =~= iv.take(i as int));
                    assert(iv.take(i + 1).last() == iv[i as int]);
                }
                s.append_responses_item_as_chat_message(&items[i], tool_context);
                i = i + 1;
            }
            proof {
                assert(iv.take(items.len() as int) =~= iv);
            }
        },
        Json::Object(_) => {
            s.append_responses_item_as_chat_message(input, tool_context);
        },
        _ => {},
    }
    s.flush_pending_tool_calls();
    s.messages
}

fn extract_messages_from_responses(request: &Json, tool_context: &CodexToolContext) -> (r: Vec<Json>)
    ensures
        view_items(r@) == extract_messages_v(request@),
{
    let mut messages: Vec<Json> = Vec::new();
    proof {
        lemma_view_items_empty();
    }
    match request.get("instructions") {
        Some(i) => {
            let text = instruction_text(i);
            let t = trim(text.as_str());
            if !t.as_str().is_empty() {
                let m = message("system", Json::Str(text));
                messages.push(m);
                proof {
                    assert(view_items(messages@) =~= seq![messages@[0]@]);
                }
            }
        },
        None => {},
    }
    match request.get("input") {
        Some(input) => append_responses_input_as_chat_messages(input, messages, tool_context),
        None => messages,
    }
}

// ---------------------------------------------------------------------------
// Request fields

/// Reasoning models of OpenAI, which take `max_completion_tokens`.
pub open spec fn is_o_series_v(model: Seq<char>) -> bool {
    let m = lower_seq(trim_seq(model));
    starts_with_seq(m, "o1"@) || starts_with_seq(m, "o3"@) || starts_with_seq(m, "o4"@)
        || starts_with_seq(m, "gpt-5"@)
}

pub fn is_openai_o_series(model: &str) -> (r: bool)
    ensures
        r == is_o_series_v(model@),
{
    let t = trim(model);
    let m = ascii_lowercase(t.as_str());
    let m = m.as_str();
    starts_with(m, "o1") || starts_with(m, "o3") || starts_with(m, "o4") || starts_with(m, "gpt-5")
}

/// `chat` with member `key` copied from `source` when it has one.
pub open spec fn copy_field_v(chat: JsonV, source: JsonV, key: Seq<char>) -> JsonV {
    match get_v(source, key) {
        Some(v) => set_v(chat, key, v),
        None => chat,
    }
}

fn copy_field(chat: &mut Json, source: &Json, key: &str)
    requires
        old(chat)@ is Object,
    ensures
        final(chat)@ == copy_field_v(old(chat)@, source@, key@),
        final(chat)@ is Object,
{
    match source.get(key) {
        Some(v) => chat.set(key, deep_clone(v)),
        None => {},
    }
}

/// The token limits of the request: `max_output_tokens` becomes
/// `max_completion_tokens` for OpenAI reasoning models and `max_tokens`
/// otherwise; explicit `max_tokens` and `max_completion_tokens` are copied.
pub open spec fn max_tokens_v(chat: JsonV, source: JsonV, model: Seq<char>) -> JsonV {
    let c1 = match get_v(source, "max_output_tokens"@) {
        Some(v) => if is_o_series_v(model) {
            set_v(chat, "max_completion_tokens"@, v)
        } else {
            set_v(chat, "max_tokens"@, v)
        },
        None => chat,
    };
    copy_field_v(copy_field_v(c1, source, "max_tokens"@), source, "max_completion_tokens"@)
}

fn apply_max_tokens_fields(chat: &mut Json, source: &Json, model: &str)
    requires
        old(chat)@ is Object,
    ensures
        final(chat)@ == max_tokens_v(old(chat)@, source@, model@),
        final(chat)@ is Object,
{
    match source.get("max_output_tokens") {
        Some(v) => if is_openai_o_series(model) {
            chat.set("max_completion_tokens", deep_clone(v));
        } else {
            chat.set("max_tokens", deep_clone(v));
        },
        None => {},
    }
    copy_field(chat, source, "max_tokens");
    copy_field(chat, source, "max_completion_tokens");
}

/// The Chat parameters passed through from a Responses request as they are.
pub open spec fn passthrough_fields() -> Seq<Seq<char>> {
    seq![
        "temperature"@,
        "top_p"@,
        "reasoning"@,
        "frequency_penalty"@,
        "logit_bias"@,
        "logprobs"@,
        "metadata"@,
        "n"@,
        "parallel_tool_calls"@,
        "presence_penalty"@,
        "response_format"@,
        "seed"@,
        "service_tier"@,
        "stop"@,
        "stream_options"@,
        "top_logprobs"@,
        "user"@,
    ]
}

/// `chat` with the given members copied from `source`, in order.
pub open spec fn copy_fields_v(chat: JsonV, source: JsonV, keys: Seq<Seq<char>>) -> JsonV
    decreases keys.len(),
{
    if keys.len() == 0 {
        chat
    } else {
        copy_field_v(copy_fields_v(chat, source, keys.drop_last()), source, keys.last())
    }
}

/// The views of string slices.
pub open spec fn str_views(s: Seq<&str>) -> Seq<Seq<char>> {
    Seq::new(s.len(), |i: int| s[i]@)
}

fn passthrough_field_names() -> (r: Vec<&'static str>)
    ensures
        str_views(r@) == passthrough_fields(),
{
    let mut v: Vec<&'static str> = Vec::new();
    v.push("temperature");
    v.push("top_p");
    v.push("reasoning");
    v.push("frequency_penalty");
    v.push("logit_bias");
    v.push("logprobs");
    v.push("metadata");
    v.push("n");
    v.push("parallel_tool_calls");
    v.push("presence_penalty");
    v.push("response_format");
    v.push("seed");
    v.push("service_tier");
    v.push("stop");
    v.push("stream_options");
    v.push("top_logprobs");
    v.push("user");
    assert(str_views(v@) =~= passthrough_fields());
    v
}

fn copy_passthrough_fields(chat: &mut Json, source: &Json)
    requires
        old(chat)@ is Object,
    ensures
        final(chat)@ == copy_fields_v(old(chat)@, source@, passthrough_fields()),
        final(chat)@ is Object,
{
    let keys = passthrough_field_names();
    let ghost kv = str_views(keys@);
    let ghost c0 = chat@;
    let mut i: usize = 0;
    proof {
        assert(kv.take(0) =~= Seq::<Seq<char>>::empty());
    }
    while i < keys.len()
        invariant
            i <= keys.len(),
            kv == str_views(keys@),
            chat@ == copy_fields_v(c0, source@, kv.take(i as int)),
            chat@ is Object,
        decreases keys.len() - i,
    {
        proof {
            assert(kv.take(i + 1).drop_last() =~= kv.take(i as int));
            assert(kv.take(i + 1).last() == keys@[i as int]@);
        }
        copy_field(chat, source, keys[i]);
        i = i + 1;
    }
    proof {
        assert(kv.take(keys.len() as int) =~= kv);
    }
}

// ---------------------------------------------------------------------------
// The conversion

/// Why a Responses request cannot be converted.
#[derive(PartialEq, Eq, Structural)]
pub enum ConvertError {
    /// Neither `messages` nor `input`/`instructions` gave any message.
    NoMessages,
}

impl ConvertError {
    /// The error text.
    pub fn message(&self) -> (r: String)
        ensures
            r@ == "无法从 Responses 请求中提取 input/instructions"@,
    {
        "无法从 Responses 请求中提取 input/instructions".to_string()
    }
}

/// A converted request: the Chat body as JSON text, and what the proxy needs
/// to convert the answer back.
pub struct ConvertedChatRequest {
    pub body: String,
    pub model: String,
    pub stream: bool,
    pub tool_context: CodexToolContext,
}

/// The model a request names, or the default.
pub open spec fn request_model_v(request: JsonV) -> Seq<char> {
    match get_str_v(request, "model"@) {
        Some(m) => m,
        None => "deepseek-v4-flash"@,
    }
}

/// Whether a request asks for streaming.
pub open spec fn request_stream_v(request: JsonV) -> bool {
    match get_bool_v(request, "stream"@) {
        Some(b) => b,
        None => false,
    }
}

/// The messages a request starts from: its Chat `messages` when it has an
/// array of them, else those extracted from `instructions` and `input`.
pub open spec fn initial_messages_v(request: JsonV) -> Seq<JsonV> {
    match get_array_v(request, "messages"@) {
        Some(existing) => existing,
        None => extract_messages_v(request),
    }
}

/// Whether a provider needs reasoning carried on tool-call turns.
pub open spec fn preserve_reasoning_v(provider: Option<ProviderV>) -> bool {
    match provider {
        Some(p) => needs_reasoning_content_v(p),
        None => false,
    }
}

/// The Chat request for a Responses request.
pub open spec fn chat_request_v(request: JsonV, provider: Option<ProviderV>, max_chars: nat) -> JsonV {
    let model = request_model_v(request);
    let stream = request_stream_v(request);
    let ms = repair_v(
        normalize_messages_v(initial_messages_v(request)),
        preserve_reasoning_v(provider),
        max_chars,
    );
    let c0 = JsonV::Object(
        seq![
            ("model"@, JsonV::Str(model)),
            ("messages"@, JsonV::Array(ms)),
            ("stream"@, JsonV::Bool(stream)),
        ],
    );
    let tools = request_tools_v(request);
    let c1 = if tools.len() > 0 {
        set_v(c0, "tools"@, JsonV::Array(tools))
    } else {
        c0
    };
    let c2 = match get_v(request, "tool_choice"@) {
        Some(tc) => set_v(c1, "tool_choice"@, tool_choice_v(tc)),
        None => c1,
    };
    let c3 = max_tokens_v(c2, request, model);
    let c4 = copy_fields_v(c3, request, passthrough_fields());
    let c5 = finalize_v(c4, stream);
    match provider {
        Some(p) => apply_reasoning_options_v(c5, p),
        None => c5,
    }
}

/// The messages a conversion repairs.
pub open spec fn converted_messages_v(request: JsonV) -> Seq<JsonV> {
    normalize_messages_v(initial_messages_v(request))
}

/// Converts a Responses request to a Chat request for `provider`, cutting
/// tool outputs to `tool_output_max_chars` (0: no cut).
pub fn convert_responses_to_chat_with_provider(
    request: &Json,
    provider: Option<&ProviderConfig>,
    tool_output_max_chars: usize,
) -> (r: Result<ConvertedChatRequest, ConvertError>)
    requires
        tool_outputs_fit_v(converted_messages_v(request@), tool_output_max_chars as nat),
    ensures
        initial_messages_v(request@).len() == 0 <==> r is Err,
        match r {
            Ok(c) => {
                &&& c.body@ == canonical_v(
                    chat_request_v(
                        request@,
                        match provider {
                            Some(p) => Some(p@),
                            None => None,
                        },
                        tool_output_max_chars as nat,
                    ),
                )
                &&& c.model@ == request_model_v(request@)
                &&& c.stream == request_stream_v(request@)
                &&& c.tool_context@ == request_tools_v(request@)
                &&& c.tool_context.custom_tool_names() == request_custom_names_v(request@)
            },
            Err(e) => e == ConvertError::NoMessages,
        },
{
    let tool_context = build_codex_tool_context_from_request(request);
    let model = match request.get_str("model") {
        Some(m) => m.to_string(),
        None => "deepseek-v4-flash".to_string(),
    };
    let stream = match request.get_bool("stream") {
        Some(b) => b,
        None => false,
    };
    let mut messages = match request.get_array("messages") {
        Some(existing) => crate::json::clone_items(existing),
        None => extract_messages_from_responses(request, &tool_context),
    };
    if messages.len() == 0 {
        return Err(ConvertError::NoMessages);
    }
    normalize_messages_for_upstream(&mut messages);
    let options = repair_options_for_provider(provider, tool_output_max_chars);
    repair_messages_for_upstream_with_options(&mut messages, options);
    let mut chat = object3(
        "model",
        Json::Str(model.clone()),
        "messages",
        Json::Array(messages),
        "stream",
        Json::Bool(stream),
    );
    let tools = tool_context.chat_tools();
    if tools.len() > 0 {
        chat.set("tools", Json::Array(tools));
    }
    match request.get("tool_choice") {
        Some(tc) => {
            chat.set("tool_choice", responses_tool_choice_to_chat(tc, &tool_context));
        },
        None => {},
    }
    apply_max_tokens_fields(&mut chat, request, model.as_str());
    copy_passthrough_fields(&mut chat, request);
    finalize_chat_request(&mut chat, stream);
    match provider {
        Some(p) => apply_reasoning_options(&mut chat, p),
        None => {},
    }
    let body = canonical_json_string(&chat);
    Ok(ConvertedChatRequest { body, model, stream, tool_context })
}

/// Truncation to 0 characters is off, so every history fits it.
pub proof fn lemma_everything_fits_without_truncation(ms: Seq<JsonV>)
    ensures
        tool_outputs_fit_v(ms, 0),
{
    assert forall|i: int| 0 <= i < ms.len() implies tool_output_fits_v(#[trigger] ms[i], 0) by {}
}

/// Whether the tool outputs of a request's converted history can be cut to
/// `tool_output_max_chars` (see [`convert_responses_to_chat_with_provider`]).
pub fn responses_tool_outputs_fit(request: &Json, tool_output_max_chars: usize) -> (r: bool)
    ensures
        r == tool_outputs_fit_v(converted_messages_v(request@), tool_output_max_chars as nat),
{
    let tool_context = build_codex_tool_context_from_request(request);
    let mut messages = match request.get_array("messages") {
        Some(existing) => crate::json::clone_items(existing),
        None => extract_messages_from_responses(request, &tool_context),
    };
    normalize_messages_for_upstream(&mut messages);
    crate::chat_messages::tool_outputs_fit(&messages, tool_output_max_chars)
}

/// Converts a Responses request to a Chat request, with no provider
/// specifics and no truncation.
pub fn convert_responses_to_chat(request: &Json) -> (r: Result<ConvertedChatRequest, ConvertError>)
    ensures
        initial_messages_v(request@).len() == 0 <==> r is Err,
        match r {
            Ok(c) => {
                &&& c.body@ == canonical_v(chat_request_v(request@, None, 0))
                &&& c.model@ == request_model_v(request@)
                &&& c.stream == request_stream_v(request@)
                &&& c.tool_context@ == request_tools_v(request@)
                &&& c.tool_context.custom_tool_names() == request_custom_names_v(request@)
            },
            Err(e) => e == ConvertError::NoMessages,
        },
{
    proof {
        lemma_everything_fits_without_truncation(converted_messages_v(request@));
    }
    convert_responses_to_chat_with_provider(request, None, 0)
}

} // verus!
