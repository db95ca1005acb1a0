//! Reasoning text carried between Codex Responses items and Chat messages.
use vstd::prelude::*;

use crate::json::{get_array_v, get_str_v, set_v, view_items, Json, JsonV};
use crate::text::{blank, is_blank, join_seq, join_strings, views};

verus! {

/// The reasoning text a Chat message or Responses item carries in its
/// `reasoning_content` field, when that is a non-blank string.
pub open spec fn reasoning_field_v(item: JsonV) -> Option<Seq<char>> {
    match get_str_v(item, "reasoning_content"@) {
        Some(t) => if is_blank(t) {
            None
        } else {
            Some(t)
        },
        None => None,
    }
}

/// The `reasoning_content` text of a message or item, when not blank.
pub fn extract_reasoning_field_text(item: &Json) -> (r: Option<String>)
    ensures
        match reasoning_field_v(item@) {
            Some(t) => r is Some && r->0@ == t,
            None => r is None,
        },
{
    match item.get_str("reasoning_content") {
        Some(t) => if blank(t) {
            None
        } else {
            Some(t.to_string())
        },
        None => None,
    }
}

/// The separator placed between two pieces of reasoning text.
pub open spec fn para_sep() -> Seq<char> {
    seq!['\n', '\n']
}

pub fn para_sep_str() -> (r: &'static str)
    ensures
        r@ == para_sep(),
{
    let r = "\n\n";
    proof {
        reveal_strlit("\n\n");
    }
    assert(r@ =~= para_sep());
    r
}

/// A message with `text` added to its reasoning: appended after a blank
/// line to a non-empty `reasoning_content`, or set as it.
pub open spec fn append_reasoning_v(message: JsonV, text: Seq<char>) -> JsonV {
    match get_str_v(message, "reasoning_content"@) {
        Some(e) => if e.len() > 0 {
            set_v(message, "reasoning_content"@, JsonV::Str(e + para_sep() + text))
        } else {
            set_v(message, "reasoning_content"@, JsonV::Str(text))
        },
        None => set_v(message, "reasoning_content"@, JsonV::Str(text)),
    }
}

/// Adds `text` to the reasoning of a Chat message object.
pub fn append_reasoning_content(message: &mut Json, text: &str)
    requires
        old(message)@ is Object,
    ensures
        final(message)@ == append_reasoning_v(old(message)@, text@),
        final(message)@ is Object,
{
    let existing: Option<String> = match message.get_str("reasoning_content") {
        Some(e) => Some(e.to_string()),
        None => None,
    };
    match existing {
        Some(e) => if !e.as_str().is_empty() {
            let mut joined = e;
            crate::text::push_str(&mut joined, para_sep_str());
            crate::text::push_str(&mut joined, text);
            message.set("reasoning_content", Json::Str(joined));
        } else {
            message.set("reasoning_content", Json::str_of(text));
        },
        None => {
            message.set("reasoning_content", Json::str_of(text));
        },
    }
}

/// The non-empty `text` strings of summary parts, in order.
pub open spec fn summary_texts_v(parts: Seq<JsonV>) -> Seq<Seq<char>>
    decreases parts.len(),
{
    if parts.len() == 0 {
        Seq::empty()
    } else {
        let rest = summary_texts_v(parts.drop_last());
        match get_str_v(parts.last(), "text"@) {
            Some(t) => if t.len() > 0 {
                rest.push(t)
            } else {
                rest
            },
            None => rest,
        }
    }
}

/// The text of a Responses `reasoning` item: its summary texts joined by
/// blank lines; `None` when it has none.
pub open spec fn reasoning_summary_v(item: JsonV) -> Option<Seq<char>> {
    match get_array_v(item, "summary"@) {
        Some(parts) => {
            let ts = summary_texts_v(parts);
            if ts.len() == 0 {
                None
            } else {
                Some(join_seq(ts, para_sep()))
            }
        },
        None => None,
    }
}

/// The summary text of a Responses `reasoning` item.
pub fn extract_reasoning_summary_text(item: &Json) -> (r: Option<String>)
    ensures
        match reasoning_summary_v(item@) {
            Some(t) => r is Some && r->0@ == t,
            None => r is None,
        },
{
    let parts = match item.get_array("summary") {
        Some(p) => p,
        None => {
            return None;
        },
    };
    let ghost pv = view_items(parts@);
    let mut texts: Vec<String> = Vec::new();
    let mut i: usize = 0;
    proof {
        assert(pv.take(0) =~= Seq::<JsonV>::empty());
    }
    while i < parts.len()
        invariant
            i <= parts.len(),
            pv == view_items(parts@),
            views(texts@) == summary_texts_v(pv.take(i as int)),
        decreases parts.len() - i,
    {
        proof {
            assert(pv.take(i + 1).drop_last() =~= pv.take(i as int));
            assert(pv.take(i + 1).last() == pv[i as int]);
        }
        match parts[i].get_str("text") {
            Some(t) => if !t.is_empty() {
                let ghost before = texts@;
                texts.push(t.to_string());
                proof {
                    assert(views(texts@) =~= views(before).push(t@));
                }
            },
            None => {},
        }
        i = i + 1;
    }
    proof {
        assert(pv.take(parts.len() as int) =~= pv);
    }
    if texts.len() == 0 {
        return None;
    }
    Some(join_strings(&texts, para_sep_str()))
}

} // verus!
