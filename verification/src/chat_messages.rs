//! Repairs a Chat Completions message history so that strict upstreams
//! accept it: consecutive tool-call turns are merged, every tool call gets
//! an answer, nullish assistant content becomes text, reasoning is carried
//! on tool-call turns where the provider needs it, long tool outputs are cut
//! to head and tail, and system text is gathered at the head.
use vstd::prelude::*;

use crate::codex_chat::{extract_reasoning_field_text, para_sep, para_sep_str, reasoning_field_v};
use crate::config::ProviderConfig;
use crate::json::{
    clone_items, deep_clone, get_array_v, get_str_v, get_v, lemma_get_remove, lemma_get_set,
    lemma_view_items_add, lemma_view_items_empty, lemma_view_items_push, object1, object2,
    object3, remove_v, set_v, view_items, view_json, Json, JsonV,
};
use crate::reasoning::{needs_reasoning_content_v, provider_needs_reasoning_content};
use crate::text::{
    blank, chars_of, concat3, decimal_seq, is_blank, join_seq, join_strings, str_eq,
    string_of_range, u64_decimal, views,
};

verus! {

// ---------------------------------------------------------------------------
// Message shape

/// The message's `role` is `role`.
pub open spec fn role_is_v(m: JsonV, role: Seq<char>) -> bool {
    get_str_v(m, "role"@) == Some(role)
}

pub fn role_is(m: &Json, role: &str) -> (r: bool)
    ensures
        r == role_is_v(m@, role@),
{
    match m.get_str("role") {
        Some(x) => str_eq(x, role),
        None => false,
    }
}

/// The message's `tool_calls` items (empty when it has none).
pub open spec fn tool_calls_v(m: JsonV) -> Seq<JsonV> {
    match get_array_v(m, "tool_calls"@) {
        Some(a) => a,
        None => Seq::empty(),
    }
}

/// An assistant message that makes at least one tool call.
pub open spec fn has_tool_calls_v(m: JsonV) -> bool {
    role_is_v(m, "assistant"@) && tool_calls_v(m).len() > 0
}

pub fn has_tool_calls(m: &Json) -> (r: bool)
    ensures
        r == has_tool_calls_v(m@),
{
    role_is(m, "assistant") && match m.get_array("tool_calls") {
        Some(a) => a.len() > 0,
        None => false,
    }
}

fn tool_calls_from(m: &Json) -> (r: Vec<Json>)
    ensures
        view_items(r@) == tool_calls_v(m@),
{
    match m.get_array("tool_calls") {
        Some(a) => clone_items(a),
        None => {
            let v: Vec<Json> = Vec::new();
            proof {
                lemma_view_items_empty();
            }
            v
        },
    }
}

proof fn lemma_role_keys_differ()
    ensures
        "role"@ != "tool_calls"@,
        "role"@ != "content"@,
        "role"@ != "reasoning_content"@,
        "role"@ != "tool_call_id"@,
        "tool_calls"@ != "content"@,
        "tool_calls"@ != "reasoning_content"@,
        "tool_call_id"@ != "content"@,
        "assistant"@ != "tool"@,
        "system"@ != "tool"@,
        "assistant"@ != "system"@,
{
    reveal_strlit("role");
    reveal_strlit("tool_calls");
    reveal_strlit("content");
    reveal_strlit("reasoning_content");
    reveal_strlit("tool_call_id");
    reveal_strlit("assistant");
    reveal_strlit("tool");
    reveal_strlit("system");
    assert("role"@.len() != "tool_calls"@.len());
    assert("role"@.len() != "content"@.len());
    assert("role"@.len() != "reasoning_content"@.len());
    assert("role"@.len() != "tool_call_id"@.len());
    assert("tool_calls"@[0] != "content"@[0]);
    assert("tool_calls"@.len() != "reasoning_content"@.len());
    assert("tool_call_id"@[0] != "content"@[0]);
    assert("assistant"@.len() != "tool"@.len());
    assert("system"@.len() != "tool"@.len());
    assert("assistant"@.len() != "system"@.len());
}

// ---------------------------------------------------------------------------
// Merging consecutive tool-call turns

/// Message `a` carrying the tool calls of `a` followed by those of `b`.
pub open spec fn combine_calls_v(a: JsonV, b: JsonV) -> JsonV {
    set_v(a, "tool_calls"@, JsonV::Array(tool_calls_v(a) + tool_calls_v(b)))
}

/// The history with each run of consecutive assistant tool-call messages
/// merged into its first message, which carries all their calls in order.
pub open spec fn merge_tool_call_runs_v(ms: Seq<JsonV>) -> Seq<JsonV>
    decreases ms.len(),
{
    if ms.len() == 0 {
        ms
    } else if ms.len() >= 2 && has_tool_calls_v(ms[0]) && has_tool_calls_v(ms[1]) {
        merge_tool_call_runs_v(seq![combine_calls_v(ms[0], ms[1])] + ms.skip(2))
    } else {
        seq![ms[0]] + merge_tool_call_runs_v(ms.skip(1))
    }
}

proof fn lemma_combine_keeps_calls(a: JsonV, b: JsonV)
    requires
        has_tool_calls_v(a),
    ensures
        has_tool_calls_v(combine_calls_v(a, b)),
        tool_calls_v(combine_calls_v(a, b)) == tool_calls_v(a) + tool_calls_v(b),
{
    lemma_role_keys_differ();
    let arr = JsonV::Array(tool_calls_v(a) + tool_calls_v(b));
    lemma_get_set(a, "tool_calls"@, arr, "role"@);
    lemma_get_set(a, "tool_calls"@, arr, "tool_calls"@);
}

/// Merges consecutive assistant tool-call messages.
fn repair_chat_tool_message_sequence(messages: &Vec<Json>) -> (r: Vec<Json>)
    ensures
        view_items(r@) == merge_tool_call_runs_v(view_items(messages@)),
{
    let ghost all = view_items(messages@);
    let mut out: Vec<Json> = Vec::new();
    proof {
        lemma_view_items_empty();
    }
    if messages.len() == 0 {
        assert(all =~= Seq::<JsonV>::empty());
        return out;
    }
    let mut cur = deep_clone(&messages[0]);
    let mut i: usize = 1;
    proof {
        assert(seq![cur@] + all.skip(1) =~= all);
        assert(view_items(out@) + all =~= all);
    }
    while i < messages.len()
        invariant
            1 <= i <= messages.len(),
            all == view_items(messages@),
            view_items(out@) + merge_tool_call_runs_v(seq![cur@] + all.skip(i as int))
                == merge_tool_call_runs_v(all),
        decreases messages.len() - i,
    {
        let ghost rest = seq![cur@] + all.skip(i as int);
        let ghost old_cur = cur@;
        proof {
            assert(rest[0] == old_cur);
            assert(rest[1] == all[i as int]);
            assert(rest.skip(2) =~= all.skip(i + 1));
            assert(rest.skip(1) =~= seq![all[i as int]] + all.skip(i + 1));
        }
        if has_tool_calls(&cur) && has_tool_calls(&messages[i]) {
            let mut calls = tool_calls_from(&cur);
            let mut more = tool_calls_from(&messages[i]);
            let ghost c0 = calls@;
            let ghost m0 = more@;
            calls.append(&mut more);
            proof {
                lemma_view_items_add(c0, m0);
            }
            cur.set("tool_calls", Json::Array(calls));
            proof {
                assert(cur@ == combine_calls_v(old_cur, all[i as int]));
            }
        } else {
            let next = deep_clone(&messages[i]);
            let ghost before = out@;
            out.push(cur);
            proof {
                lemma_view_items_push(before, out@.last());
                assert(out@ =~= before.push(out@.last()));
                assert(view_items(out@) =~= view_items(before).push(old_cur));
                assert(view_items(out@) + merge_tool_call_runs_v(seq![next@] + all.skip(i + 1))
                    =~= view_items(before) + (seq![old_cur] + merge_tool_call_runs_v(
                    rest.skip(1),
                )));
            }
            cur = next;
        }
        i = i + 1;
    }
    let ghost before = out@;
    let ghost last = cur@;
    out.push(cur);
    proof {
        lemma_view_items_push(before, out@.last());
        assert(out@ =~= before.push(out@.last()));
        assert(all.skip(messages.len() as int) =~= Seq::<JsonV>::empty());
        assert(seq![last] + all.skip(messages.len() as int) =~= seq![last]);
        assert(seq![last].skip(1) =~= Seq::<JsonV>::empty());
        assert(merge_tool_call_runs_v(Seq::<JsonV>::empty()) =~= Seq::<JsonV>::empty());
        assert(merge_tool_call_runs_v(seq![last]) =~= seq![last] + merge_tool_call_runs_v(
            seq![last].skip(1),
        ));
        assert(merge_tool_call_runs_v(seq![last]) =~= seq![last]);
        assert(view_items(out@) =~= view_items(before).push(last));
        assert(view_items(out@) =~= view_items(before) + seq![last]);
    }
    out
}

/// No two neighbouring messages are both assistant tool-call messages.
pub open spec fn no_adjacent_tool_call_turns(ms: Seq<JsonV>) -> bool {
    forall|i: int|
        0 <= i < ms.len() - 1 ==> !(has_tool_calls_v(#[trigger] ms[i]) && has_tool_calls_v(
            ms[i + 1],
        ))
}

proof fn lemma_merge_head(ms: Seq<JsonV>)
    requires
        ms.len() > 0,
    ensures
        merge_tool_call_runs_v(ms).len() > 0,
        has_tool_calls_v(merge_tool_call_runs_v(ms)[0]) == has_tool_calls_v(ms[0]),
    decreases ms.len(),
{
    if ms.len() >= 2 && has_tool_calls_v(ms[0]) && has_tool_calls_v(ms[1]) {
        let n = seq![combine_calls_v(ms[0], ms[1])] + ms.skip(2);
        lemma_combine_keeps_calls(ms[0], ms[1]);
        lemma_merge_head(n);
    } else {
    }
}

/// Law: after merging, no assistant tool-call message directly follows
/// another one.
pub proof fn lemma_merged_runs_are_separated(ms: Seq<JsonV>)
    ensures
        no_adjacent_tool_call_turns(merge_tool_call_runs_v(ms)),
    decreases ms.len(),
{
    if ms.len() == 0 {
    } else if ms.len() >= 2 && has_tool_calls_v(ms[0]) && has_tool_calls_v(ms[1]) {
        let n = seq![combine_calls_v(ms[0], ms[1])] + ms.skip(2);
        lemma_merged_runs_are_separated(n);
    } else {
        let tail = merge_tool_call_runs_v(ms.skip(1));
        lemma_merged_runs_are_separated(ms.skip(1));
        let r = seq![ms[0]] + tail;
        if ms.len() >= 2 {
            lemma_merge_head(ms.skip(1));
        }
        assert forall|i: int| 0 <= i < r.len() - 1 implies !(has_tool_calls_v(#[trigger] r[i])
            && has_tool_calls_v(r[i + 1])) by {
            if i == 0 {
                if ms.len() >= 2 {
                    assert(r[1] == tail[0]);
                }
            } else {
                assert(r[i] == tail[i - 1]);
                assert(r[i + 1] == tail[i]);
            }
        }
    }
}

// ---------------------------------------------------------------------------
// Answering every tool call

/// The non-empty `id`s of tool calls, in order.
pub open spec fn call_ids_v(calls: Seq<JsonV>) -> Seq<Seq<char>>
    decreases calls.len(),
{
    if calls.len() == 0 {
        Seq::empty()
    } else {
        let rest = call_ids_v(calls.drop_last());
        match get_str_v(calls.last(), "id"@) {
            Some(id) => if id.len() > 0 {
                rest.push(id)
            } else {
                rest
            },
            None => rest,
        }
    }
}

/// The non-empty ids of a message's tool calls.
pub open spec fn tool_call_ids_v(m: JsonV) -> Seq<Seq<char>> {
    call_ids_v(tool_calls_v(m))
}

proof fn lemma_call_ids_nonempty(calls: Seq<JsonV>)
    ensures
        forall|k: int| 0 <= k < call_ids_v(calls).len() ==> #[trigger] call_ids_v(calls)[k].len()
            > 0,
    decreases calls.len(),
{
    if calls.len() > 0 {
        lemma_call_ids_nonempty(calls.drop_last());
        let r = call_ids_v(calls);
        let rest = call_ids_v(calls.drop_last());
        assert forall|k: int| 0 <= k < r.len() implies #[trigger] r[k].len() > 0 by {
            if k < rest.len() {
                assert(rest[k].len() > 0);
            }
        }
    }
}

fn tool_call_ids_from(m: &Json) -> (r: Vec<String>)
    ensures
        views(r@) == tool_call_ids_v(m@),
{
    let calls = tool_calls_from(m);
    let ghost cv = view_items(calls@);
    let mut ids: Vec<String> = Vec::new();
    let mut i: usize = 0;
    proof {
        assert(cv.take(0) =~= Seq::<JsonV>::empty());
        assert(views(ids@) =~= Seq::<Seq<char>>::empty());
    }
    while i < calls.len()
        invariant
            i <= calls.len(),
            cv == view_items(calls@),
            views(ids@) == call_ids_v(cv.take(i as int)),
        decreases calls.len() - i,
    {
        proof {
            assert(cv.take(i + 1).drop_last() =~= cv.take(i as int));
            assert(cv.take(i + 1).last() == cv[i as int]);
        }
        match calls[i].get_str("id") {
            Some(id) => if !id.is_empty() {
                let ghost before = ids@;
                ids.push(id.to_string());
                proof {
                    assert(views(ids@) =~= views(before).push(id@));
                }
            },
            None => {},
        }
        i = i + 1;
    }
    proof {
        assert(cv.take(calls.len() as int) =~= cv);
    }
    ids
}

/// The id a tool message answers, when non-empty.
pub open spec fn answer_id_v(m: JsonV) -> Option<Seq<char>> {
    match get_str_v(m, "tool_call_id"@) {
        Some(id) => if id.len() > 0 {
            Some(id)
        } else {
            None
        },
        None => None,
    }
}

/// How many messages at the front are tool messages.
pub open spec fn tool_run_len_v(ms: Seq<JsonV>) -> nat
    decreases ms.len(),
{
    if ms.len() > 0 && role_is_v(ms[0], "tool"@) {
        1 + tool_run_len_v(ms.skip(1))
    } else {
        0
    }
}

pub proof fn lemma_tool_run_len(ms: Seq<JsonV>)
    ensures
        tool_run_len_v(ms) <= ms.len(),
        forall|k: int| 0 <= k < tool_run_len_v(ms) ==> role_is_v(#[trigger] ms[k], "tool"@),
    decreases ms.len(),
{
    if ms.len() > 0 && role_is_v(ms[0], "tool"@) {
        lemma_tool_run_len(ms.skip(1));
        assert forall|k: int| 0 <= k < tool_run_len_v(ms) implies role_is_v(
            #[trigger] ms[k],
            "tool"@,
        ) by {
            if k > 0 {
                assert(ms[k] == ms.skip(1)[k - 1]);
            }
        }
    }
}

/// The last message of `block` that answers `id`.
pub open spec fn last_answer_v(block: Seq<JsonV>, id: Seq<char>) -> Option<JsonV>
    decreases block.len(),
{
    if block.len() == 0 {
        None
    } else if answer_id_v(block.last()) == Some(id) {
        Some(block.last())
    } else {
        last_answer_v(block.drop_last(), id)
    }
}

proof fn lemma_last_answer(block: Seq<JsonV>, id: Seq<char>)
    ensures
        match last_answer_v(block, id) {
            Some(m) => answer_id_v(m) == Some(id) && exists|k: int|
                0 <= k < block.len() && block[k] == m,
            None => true,
        },
    decreases block.len(),
{
    if block.len() > 0 {
        if answer_id_v(block.last()) == Some(id) {
            assert(block[block.len() - 1] == block.last());
        } else {
            lemma_last_answer(block.drop_last(), id);
            match last_answer_v(block.drop_last(), id) {
                Some(m) => {
                    let k = choose|k: int|
                        0 <= k < block.drop_last().len() && block.drop_last()[k] == m;
                    assert(block[k] == m);
                },
                None => {},
            }
        }
    }
}

/// The tool message inserted for a call that has no answer.
pub open spec fn missing_answer_v(id: Seq<char>) -> JsonV {
    JsonV::Object(
        seq![
            ("role"@, JsonV::Str("tool"@)),
            ("tool_call_id"@, JsonV::Str(id)),
            ("content"@, JsonV::Str(Seq::empty())),
        ],
    )
}

/// One answer per id, in the order of the ids: the last message of `block`
/// answering it, or an empty tool message.
pub open spec fn answers_v(ids: Seq<Seq<char>>, block: Seq<JsonV>) -> Seq<JsonV> {
    Seq::new(
        ids.len(),
        |k: int|
            match last_answer_v(block, ids[k]) {
                Some(m) => m,
                None => missing_answer_v(ids[k]),
            },
    )
}

/// The history where the tool messages following each assistant tool-call
/// message are rebuilt as one answer per call id, in call order.
pub open spec fn backfill_v(ms: Seq<JsonV>) -> Seq<JsonV>
    decreases ms.len(),
{
    if ms.len() == 0 {
        ms
    } else if has_tool_calls_v(ms[0]) && tool_call_ids_v(ms[0]).len() > 0 {
        let rest = ms.skip(1);
        let t = tool_run_len_v(rest);
        proof {
            lemma_tool_run_len(rest);
        }
        seq![ms[0]] + answers_v(tool_call_ids_v(ms[0]), rest.take(t as int)) + backfill_v(
            rest.skip(t as int),
        )
    } else {
        seq![ms[0]] + backfill_v(ms.skip(1))
    }
}

fn last_answer_index(messages: &Vec<Json>, start: usize, end: usize, id: &str) -> (r: Option<
    usize,
>)
    requires
        start <= end <= messages.len(),
    ensures
        match last_answer_v(view_items(messages@).subrange(start as int, end as int), id@) {
            Some(m) => r is Some && start <= r->0 < end && messages@[r->0 as int]@ == m,
            None => r is None,
        },
{
    let ghost all = view_items(messages@);
    let mut j = end;
    while j > start
        invariant
            start <= j <= end <= messages.len(),
            all == view_items(messages@),
            last_answer_v(all.subrange(start as int, end as int), id@) == last_answer_v(
                all.subrange(start as int, j as int),
                id@,
            ),
        decreases j - start,
    {
        let ghost sub = all.subrange(start as int, j as int);
        proof {
            assert(sub.last() == all[j - 1]);
            assert(sub.drop_last() =~= all.subrange(start as int, j - 1));
        }
        let hit = match messages[j - 1].get_str("tool_call_id") {
            Some(x) => !x.is_empty() && str_eq(x, id),
            None => false,
        };
        if hit {
            return Some(j - 1);
        }
        j = j - 1;
    }
    proof {
        assert(all.subrange(start as int, start as int) =~= Seq::<JsonV>::empty());
    }
    None
}

fn missing_answer(id: &str) -> (r: Json)
    ensures
        r@ == missing_answer_v(id@),
{
    let empty = String::new();
    let r = object3("role", Json::str_of("tool"), "tool_call_id", Json::str_of(id), "content", Json::Str(empty));
    r
}

/// Gives every assistant tool call an answer right after its message.
fn backfill_missing_tool_responses(messages: &Vec<Json>) -> (r: Vec<Json>)
    ensures
        view_items(r@) == backfill_v(view_items(messages@)),
{
    let ghost all = view_items(messages@);
    let mut out: Vec<Json> = Vec::new();
    let mut i: usize = 0;
    proof {
        lemma_view_items_empty();
        assert(all.skip(0) =~= all);
        assert(view_items(out@) + all =~= all);
    }
    while i < messages.len()
        invariant
            i <= messages.len(),
            all == view_items(messages@),
            view_items(out@) + backfill_v(all.skip(i as int)) == backfill_v(all),
        decreases messages.len() - i,
    {
        let ghost rest_i = all.skip(i as int);
        proof {
            assert(rest_i[0] == all[i as int]);
            assert(rest_i.skip(1) =~= all.skip(i + 1));
        }
        let ids = tool_call_ids_from(&messages[i]);
        let m = deep_clone(&messages[i]);
        let ghost before = out@;
        if has_tool_calls(&messages[i]) && ids.len() > 0 {
            let start = i + 1;
            let mut end = start;
            proof {
                lemma_tool_run_len(all.skip(start as int));
            }
            while end < messages.len() && role_is(&messages[end], "tool")
                invariant
                    start <= end <= messages.len(),
                    all == view_items(messages@),
                    tool_run_len_v(all.skip(start as int)) == (end - start) + tool_run_len_v(
                        all.skip(end as int),
                    ),
                decreases messages.len() - end,
            {
                proof {
                    let s = all.skip(end as int);
                    assert(s[0] == all[end as int]);
                    assert(s.skip(1) =~= all.skip(end + 1));
                }
                end = end + 1;
            }
            proof {
                let s = all.skip(end as int);
                if end < messages.len() {
                    assert(s[0] == all[end as int]);
                } else {
                    assert(s.len() == 0);
                }
                assert(tool_run_len_v(s) == 0);
            }
            out.push(m);
            proof {
                lemma_view_items_push(before, out@[before.len() as int]);
                assert(out@ =~= before.push(out@[before.len() as int]));
            }
            let ghost ids_v = views(ids@);
            let ghost block = all.subrange(start as int, end as int);
            let ghost base = out@;
            let mut k: usize = 0;
            while k < ids.len()
                invariant
                    k <= ids.len(),
                    start <= end <= messages.len(),
                    all == view_items(messages@),
                    ids_v == views(ids@),
                    block == all.subrange(start as int, end as int),
                    view_items(out@) == view_items(base) + answers_v(ids_v, block).take(k as int),
                decreases ids.len() - k,
            {
                let found = last_answer_index(messages, start, end, ids[k].as_str());
                let answer = match found {
                    Some(j) => deep_clone(&messages[j]),
                    None => missing_answer(ids[k].as_str()),
                };
                let ghost o = out@;
                out.push(answer);
                proof {
                    assert(ids_v[k as int] == ids@[k as int]@);
                    lemma_view_items_push(o, out@[o.len() as int]);
                    assert(out@ =~= o.push(out@[o.len() as int]));
                    assert(answers_v(ids_v, block).take(k + 1) =~= answers_v(ids_v, block).take(
                        k as int,
                    ).push(answers_v(ids_v, block)[k as int]));
                }
                k = k + 1;
            }
            proof {
                let t = tool_run_len_v(rest_i.skip(1));
                assert(rest_i.skip(1) =~= all.skip(start as int));
                assert(t == end - start);
                assert(rest_i.skip(1).take(t as int) =~= block);
                assert(rest_i.skip(1).skip(t as int) =~= all.skip(end as int));
                assert(answers_v(ids_v, block).take(ids.len() as int) =~= answers_v(ids_v, block));
                assert(view_items(out@) + backfill_v(all.skip(end as int)) =~= view_items(before)
                    + backfill_v(rest_i));
            }
            i = end;
        } else {
            out.push(m);
            proof {
                lemma_view_items_push(before, out@[before.len() as int]);
                assert(out@ =~= before.push(out@[before.len() as int]));
                assert(view_items(out@) + backfill_v(all.skip(i + 1)) =~= view_items(before)
                    + backfill_v(rest_i));
            }
            i = i + 1;
        }
    }
    proof {
        assert(all.skip(messages.len() as int) =~= Seq::<JsonV>::empty());
        assert(view_items(out@) + Seq::<JsonV>::empty() =~= view_items(out@));
    }
    out
}

/// Every assistant message that calls tools with ids is followed right away
/// by one tool message per id, answering the ids in call order.
pub open spec fn tool_calls_answered(ms: Seq<JsonV>) -> bool
    decreases ms.len(),
{
    if ms.len() == 0 {
        true
    } else if has_tool_calls_v(ms[0]) && tool_call_ids_v(ms[0]).len() > 0 {
        let ids = tool_call_ids_v(ms[0]);
        if ms.len() < 1 + ids.len() {
            false
        } else {
            &&& forall|k: int|
                0 <= k < ids.len() ==> role_is_v(#[trigger] ms[1 + k], "tool"@) && answer_id_v(
                    ms[1 + k],
                ) == Some(ids[k])
            &&& tool_calls_answered(ms.skip(1 + ids.len() as int))
        }
    } else {
        tool_calls_answered(ms.skip(1))
    }
}

proof fn lemma_missing_answer_shape(id: Seq<char>)
    requires
        id.len() > 0,
    ensures
        role_is_v(missing_answer_v(id), "tool"@),
        answer_id_v(missing_answer_v(id)) == Some(id),
{
    lemma_role_keys_differ();
    let e = seq![
        ("role"@, JsonV::Str("tool"@)),
        ("tool_call_id"@, JsonV::Str(id)),
        ("content"@, JsonV::Str(Seq::<char>::empty())),
    ];
    crate::json::lemma_key_index(e, "role"@);
    crate::json::lemma_key_index(e, "tool_call_id"@);
    assert(crate::json::first_key_at(e, "role"@, 0));
    assert(crate::json::first_key_at(e, "tool_call_id"@, 1));
}

/// Law: after backfilling, every tool call with an id is answered, in order,
/// by the tool messages right after its assistant message.
pub proof fn lemma_backfill_answers_every_call(ms: Seq<JsonV>)
    ensures
        tool_calls_answered(backfill_v(ms)),
    decreases ms.len(),
{
    if ms.len() == 0 {
    } else if has_tool_calls_v(ms[0]) && tool_call_ids_v(ms[0]).len() > 0 {
        let rest = ms.skip(1);
        lemma_tool_run_len(rest);
        let t = tool_run_len_v(rest);
        let ids = tool_call_ids_v(ms[0]);
        let block = rest.take(t as int);
        let a = answers_v(ids, block);
        let b = backfill_v(rest.skip(t as int));
        lemma_backfill_answers_every_call(rest.skip(t as int));
        lemma_call_ids_nonempty(tool_calls_v(ms[0]));
        let r = seq![ms[0]] + a + b;
        assert(r == backfill_v(ms));
        assert(r[0] == ms[0]);
        assert forall|k: int| 0 <= k < ids.len() implies role_is_v(#[trigger] r[1 + k], "tool"@)
            && answer_id_v(r[1 + k]) == Some(ids[k]) by {
            assert(r[1 + k] == a[k]);
            assert(ids[k].len() > 0);
            lemma_last_answer(block, ids[k]);
            match last_answer_v(block, ids[k]) {
                Some(m) => {
                    let j = choose|j: int| 0 <= j < block.len() && block[j] == m;
                    assert(block[j] == rest[j]);
                },
                None => {
                    lemma_missing_answer_shape(ids[k]);
                },
            }
        }
        assert(r.skip(1 + ids.len() as int) =~= b);
    } else {
        lemma_backfill_answers_every_call(ms.skip(1));
        let r = seq![ms[0]] + backfill_v(ms.skip(1));
        assert(r.skip(1) =~= backfill_v(ms.skip(1)));
    }
}

// ---------------------------------------------------------------------------
// Per-message rewrites

/// `content` is missing or null.
pub open spec fn nullish_content_v(m: JsonV) -> bool {
    match get_v(m, "content"@) {
        None => true,
        Some(JsonV::Null) => true,
        Some(_) => false,
    }
}

/// An assistant tool-call message with missing or null content gets empty
/// text content; others are unchanged.
pub open spec fn fill_content_v(m: JsonV) -> JsonV {
    if has_tool_calls_v(m) && nullish_content_v(m) {
        set_v(m, "content"@, JsonV::Str(Seq::empty()))
    } else {
        m
    }
}

fn fill_content(m: Json) -> (r: Json)
    ensures
        r@ == fill_content_v(m@),
{
    let mut m = m;
    if has_tool_calls(&m) {
        let nullish = match m.get("content") {
            None => true,
            Some(c) => c.is_null(),
        };
        if nullish {
            m.set("content", Json::Str(String::new()));
        }
    }
    m
}

/// Applies [`fill_content_v`] to every message.
pub open spec fn fill_contents_v(ms: Seq<JsonV>) -> Seq<JsonV> {
    Seq::new(ms.len(), |i: int| fill_content_v(ms[i]))
}

fn normalize_assistant_tool_call_content(messages: &Vec<Json>) -> (r: Vec<Json>)
    ensures
        view_items(r@) == fill_contents_v(view_items(messages@)),
{
    let mut out: Vec<Json> = Vec::new();
    let mut i: usize = 0;
    while i < messages.len()
        invariant
            i <= messages.len(),
            out.len() == i,
            forall|k: int| 0 <= k < i ==> (#[trigger] out@[k])@ == fill_content_v(messages@[k]@),
        decreases messages.len() - i,
    {
        let m = fill_content(deep_clone(&messages[i]));
        out.push(m);
        i = i + 1;
    }
    assert(view_items(out@) =~= fill_contents_v(view_items(messages@)));
    out
}

/// The latest reasoning text before the end of `ms`, looking back no further
/// than the previous assistant tool-call message.
pub open spec fn earlier_reasoning_v(ms: Seq<JsonV>) -> Option<Seq<char>>
    decreases ms.len(),
{
    if ms.len() == 0 {
        None
    } else if has_tool_calls_v(ms.last()) {
        None
    } else {
        match reasoning_field_v(ms.last()) {
            Some(t) => Some(t),
            None => earlier_reasoning_v(ms.drop_last()),
        }
    }
}

/// The placeholder reasoning text for tool-call messages.
pub open spec fn reasoning_placeholder() -> Seq<char> {
    "tool call"@
}

/// Message `i` of `ms`, with reasoning carried onto it when it calls tools
/// without any: the latest earlier reasoning, or the placeholder.
pub open spec fn with_reasoning_at_v(ms: Seq<JsonV>, i: int) -> JsonV {
    let m = ms[i];
    if has_tool_calls_v(m) && reasoning_field_v(m) is None {
        set_v(
            m,
            "reasoning_content"@,
            JsonV::Str(
                match earlier_reasoning_v(ms.take(i)) {
                    Some(t) => t,
                    None => reasoning_placeholder(),
                },
            ),
        )
    } else {
        m
    }
}

/// Every message with [`with_reasoning_at_v`].
pub open spec fn with_reasoning_v(ms: Seq<JsonV>) -> Seq<JsonV> {
    Seq::new(ms.len(), |i: int| with_reasoning_at_v(ms, i))
}

fn find_reasoning_for_tool_call_message(messages: &Vec<Json>, index: usize) -> (r: Option<String>)
    requires
        index <= messages.len(),
    ensures
        match earlier_reasoning_v(view_items(messages@).take(index as int)) {
            Some(t) => r is Some && r->0@ == t,
            None => r is None,
        },
{
    let ghost all = view_items(messages@);
    let mut j = index;
    while j > 0
        invariant
            j <= index <= messages.len(),
            all == view_items(messages@),
            earlier_reasoning_v(all.take(index as int)) == earlier_reasoning_v(all.take(j as int)),
        decreases j,
    {
        proof {
            assert(all.take(j as int).last() == all[j - 1]);
            assert(all.take(j as int).drop_last() =~= all.take(j - 1));
        }
        if has_tool_calls(&messages[j - 1]) {
            return None;
        }
        match extract_reasoning_field_text(&messages[j - 1]) {
            Some(t) => {
                return Some(t);
            },
            None => {},
        }
        j = j - 1;
    }
    proof {
        assert(all.take(0) =~= Seq::<JsonV>::empty());
    }
    None
}

fn backfill_tool_call_reasoning_placeholders(messages: &Vec<Json>) -> (r: Vec<Json>)
    ensures
        view_items(r@) == with_reasoning_v(view_items(messages@)),
{
    let ghost all = view_items(messages@);
    let mut out: Vec<Json> = Vec::new();
    let mut i: usize = 0;
    while i < messages.len()
        invariant
            i <= messages.len(),
            all == view_items(messages@),
            out.len() == i,
            forall|k: int| 0 <= k < i ==> (#[trigger] out@[k])@ == with_reasoning_at_v(all, k),
        decreases messages.len() - i,
    {
        let mut m = deep_clone(&messages[i]);
        if has_tool_calls(&messages[i]) && extract_reasoning_field_text(&messages[i]).is_none() {
            let text = match find_reasoning_for_tool_call_message(messages, i) {
                Some(t) => t,
                None => "tool call".to_string(),
            };
            m.set("reasoning_content", Json::Str(text));
        }
        out.push(m);
        i = i + 1;
    }
    assert(view_items(out@) =~= with_reasoning_v(all));
    out
}

// ---------------------------------------------------------------------------
// Truncating long tool outputs

/// The characters kept from the end of a truncated text under `max_chars`.
pub open spec fn tail_keep(max_chars: nat) -> nat {
    let budget: nat = if max_chars >= 80 {
        (max_chars - 48) as nat
    } else {
        32
    };
    (budget - budget / 2) as nat
}

/// The characters kept from the start of a truncated text under `max_chars`.
pub open spec fn head_keep(max_chars: nat) -> nat {
    let budget: nat = if max_chars >= 80 {
        (max_chars - 48) as nat
    } else {
        32
    };
    budget / 2
}

/// Truncation of a text of `len` characters to `max_chars` is defined: it is
/// off, not needed, or the text is at least as long as the tail it keeps.
pub open spec fn truncation_defined(len: nat, max_chars: nat) -> bool {
    max_chars == 0 || len <= max_chars || len >= tail_keep(max_chars)
}

/// The marker put between head and tail.
pub open spec fn truncation_marker(omitted: nat) -> Seq<char> {
    "\n\n[... truncated "@ + decimal_seq(omitted) + " chars ...]\n\n"@
}

/// `text` cut to its head and tail around a marker counting the omitted
/// characters, when longer than `max_chars` (0 turns truncation off).
pub open spec fn truncate_v(text: Seq<char>, max_chars: nat) -> Seq<char> {
    if max_chars == 0 || text.len() <= max_chars {
        text
    } else {
        let h = head_keep(max_chars);
        let t = tail_keep(max_chars);
        let omitted: nat = if text.len() >= h + t {
            (text.len() - (h + t)) as nat
        } else {
            0
        };
        text.take(h as int) + truncation_marker(omitted) + text.skip(text.len() - t)
    }
}

/// Keeps the head and tail of a long text and says how much was cut.
pub fn truncate_text_head_tail(text: &str, max_chars: usize) -> (r: String)
    requires
        truncation_defined(text@.len(), max_chars as nat),
    ensures
        r@ == truncate_v(text@, max_chars as nat),
{
    if max_chars == 0 {
        return text.to_string();
    }
    let chars = chars_of(text);
    let total = chars.len();
    if total <= max_chars {
        return text.to_string();
    }
    let budget: usize = if max_chars >= 80 {
        max_chars - 48
    } else {
        32
    };
    let head_chars = budget / 2;
    let tail_chars = budget - head_chars;
    let omitted: usize = if total >= head_chars + tail_chars {
        total - (head_chars + tail_chars)
    } else {
        0
    };
    let head = string_of_range(&chars, 0, if head_chars <= total {
        head_chars
    } else {
        total
    });
    let tail = string_of_range(&chars, total - tail_chars, total);
    let count = u64_decimal(omitted as u64);
    let marker = concat3("\n\n[... truncated ", count.as_str(), " chars ...]\n\n");
    let r = concat3(head.as_str(), marker.as_str(), tail.as_str());
    proof {
        assert(head_chars <= total);
        assert(chars@.subrange(0, head_chars as int) =~= text@.take(head_chars as int));
        assert(chars@.subrange(total - tail_chars, total as int) =~= text@.skip(
            total - tail_chars,
        ));
    }
    r
}

/// A tool message whose text content is longer than `max_chars` keeps only
/// its head and tail; other messages are unchanged.
pub open spec fn truncate_tool_output_v(m: JsonV, max_chars: nat) -> JsonV {
    if role_is_v(m, "tool"@) {
        match get_str_v(m, "content"@) {
            Some(c) => if truncate_v(c, max_chars) == c {
                m
            } else {
                set_v(m, "content"@, JsonV::Str(truncate_v(c, max_chars)))
            },
            None => m,
        }
    } else {
        m
    }
}

/// Truncating this message's output, if it is a tool message, is defined.
pub open spec fn tool_output_fits_v(m: JsonV, max_chars: nat) -> bool {
    match get_str_v(m, "content"@) {
        Some(c) => role_is_v(m, "tool"@) ==> truncation_defined(c.len(), max_chars),
        None => true,
    }
}

/// Every message's tool output can be truncated.
pub open spec fn tool_outputs_fit_v(ms: Seq<JsonV>, max_chars: nat) -> bool {
    forall|i: int| 0 <= i < ms.len() ==> tool_output_fits_v(#[trigger] ms[i], max_chars)
}

fn truncation_ok(len: usize, max_chars: usize) -> (r: bool)
    ensures
        r == truncation_defined(len as nat, max_chars as nat),
{
    if max_chars == 0 || len <= max_chars {
        return true;
    }
    let budget: usize = if max_chars >= 80 {
        max_chars - 48
    } else {
        32
    };
    len >= budget - budget / 2
}

/// Whether every tool output of the messages can be truncated to
/// `max_chars` (see [`tool_outputs_fit_v`]).
pub fn tool_outputs_fit(messages: &Vec<Json>, max_chars: usize) -> (r: bool)
    ensures
        r == tool_outputs_fit_v(view_items(messages@), max_chars as nat),
{
    let ghost ms = view_items(messages@);
    let mut i: usize = 0;
    while i < messages.len()
        invariant
            i <= messages.len(),
            ms == view_items(messages@),
            forall|k: int| 0 <= k < i ==> tool_output_fits_v(#[trigger] ms[k], max_chars as nat),
        decreases messages.len() - i,
    {
        let m = &messages[i];
        assert(ms[i as int] == m@);
        match m.get_str("content") {
            Some(c) => {
                if role_is(m, "tool") {
                    let n = chars_of(c).len();
                    if !truncation_ok(n, max_chars) {
                        return false;
                    }
                }
            },
            None => {},
        }
        i = i + 1;
    }
    true
}

/// [`truncate_tool_output_v`] on every message.
pub open spec fn truncate_tool_outputs_v(ms: Seq<JsonV>, max_chars: nat) -> Seq<JsonV> {
    Seq::new(ms.len(), |i: int| truncate_tool_output_v(ms[i], max_chars))
}

/// Cuts long text outputs of tool messages to head and tail (`max_chars` 0
/// leaves them as they are).
pub fn truncate_large_tool_outputs(messages: &mut Vec<Json>, max_chars: usize)
    requires
        tool_outputs_fit_v(view_items(old(messages)@), max_chars as nat),
    ensures
        view_items(final(messages)@) == truncate_tool_outputs_v(
            view_items(old(messages)@),
            max_chars as nat,
        ),
{
    let ghost all = view_items(messages@);
    let mut out: Vec<Json> = Vec::new();
    let mut i: usize = 0;
    while i < messages.len()
        invariant
            i <= messages.len(),
            all == view_items(messages@),
            tool_outputs_fit_v(all, max_chars as nat),
            out.len() == i,
            forall|k: int|
                0 <= k < i ==> (#[trigger] out@[k])@ == truncate_tool_output_v(
                    all[k],
                    max_chars as nat,
                ),
        decreases messages.len() - i,
    {
        let mut m = deep_clone(&messages[i]);
        proof {
            assert(tool_output_fits_v(all[i as int], max_chars as nat));
        }
        if role_is(&messages[i], "tool") {
            let replaced: Option<String> = match messages[i].get_str("content") {
                Some(c) => {
                    let t = truncate_text_head_tail(c, max_chars);
                    if str_eq(t.as_str(), c) {
                        None
                    } else {
                        Some(t)
                    }
                },
                None => None,
            };
            match replaced {
                Some(t) => {
                    m.set("content", Json::Str(t));
                },
                None => {},
            }
        }
        out.push(m);
        i = i + 1;
    }
    assert(view_items(out@) =~= truncate_tool_outputs_v(all, max_chars as nat));
    *messages = out;
}

// ---------------------------------------------------------------------------
// Gathering system text at the head

/// The text of a system message whose content is a string.
pub open spec fn system_text_v(m: JsonV) -> Option<Seq<char>> {
    if role_is_v(m, "system"@) {
        get_str_v(m, "content"@)
    } else {
        None
    }
}

/// The non-blank system texts, in order.
pub open spec fn system_chunks_v(ms: Seq<JsonV>) -> Seq<Seq<char>>
    decreases ms.len(),
{
    if ms.len() == 0 {
        Seq::empty()
    } else {
        let r = system_chunks_v(ms.drop_last());
        match system_text_v(ms.last()) {
            Some(t) => if is_blank(t) {
                r
            } else {
                r.push(t)
            },
            None => r,
        }
    }
}

/// The messages that are not system text, in order.
pub open spec fn non_system_v(ms: Seq<JsonV>) -> Seq<JsonV>
    decreases ms.len(),
{
    if ms.len() == 0 {
        ms
    } else {
        let r = non_system_v(ms.drop_last());
        if system_text_v(ms.last()) is Some {
            r
        } else {
            r.push(ms.last())
        }
    }
}

/// The one system message that carries the gathered texts.
pub open spec fn system_head_v(chunks: Seq<Seq<char>>) -> JsonV {
    JsonV::Object(
        seq![("role"@, JsonV::Str("system"@)), ("content"@, JsonV::Str(join_seq(chunks, para_sep())))],
    )
}

/// The history with all system text gathered into one leading system
/// message (blank ones dropped), the other messages kept in order.
pub open spec fn collapse_system_v(ms: Seq<JsonV>) -> Seq<JsonV> {
    let chunks = system_chunks_v(ms);
    if chunks.len() > 0 {
        seq![system_head_v(chunks)] + non_system_v(ms)
    } else {
        non_system_v(ms)
    }
}

fn collapse_system_messages_to_head(messages: Vec<Json>) -> (r: Vec<Json>)
    ensures
        view_items(r@) == collapse_system_v(view_items(messages@)),
{
    let ghost all = view_items(messages@);
    let mut chunks: Vec<String> = Vec::new();
    let mut rest: Vec<Json> = Vec::new();
    let mut i: usize = 0;
    proof {
        lemma_view_items_empty();
        assert(all.take(0) =~= Seq::<JsonV>::empty());
        assert(views(chunks@) =~= Seq::<Seq<char>>::empty());
    }
    while i < messages.len()
        invariant
            i <= messages.len(),
            all == view_items(messages@),
            views(chunks@) == system_chunks_v(all.take(i as int)),
            view_items(rest@) == non_system_v(all.take(i as int)),
        decreases messages.len() - i,
    {
        proof {
            assert(all.take(i + 1).drop_last() =~= all.take(i as int));
            assert(all.take(i + 1).last() == all[i as int]);
        }
        let text: Option<String> = if role_is(&messages[i], "system") {
            match messages[i].get_str("content") {
                Some(t) => Some(t.to_string()),
                None => None,
            }
        } else {
            None
        };
        match text {
            Some(t) => {
                if !blank(t.as_str()) {
                    let ghost before = chunks@;
                    chunks.push(t);
                    proof {
                        assert(views(chunks@) =~= views(before).push(chunks@.last()@));
                    }
                }
            },
            None => {
                let ghost before = rest@;
                rest.push(deep_clone(&messages[i]));
                proof {
                    lemma_view_items_push(before, rest@.last());
                    assert(rest@ =~= before.push(rest@.last()));
                }
            },
        }
        i = i + 1;
    }
    proof {
        assert(all.take(messages.len() as int) =~= all);
    }
    if chunks.len() == 0 {
        return rest;
    }
    let head = object2(
        "role",
        Json::str_of("system"),
        "content",
        Json::Str(join_strings(&chunks, para_sep_str())),
    );
    let mut out: Vec<Json> = Vec::new();
    out.push(head);
    let ghost o = out@;
    let ghost rv = rest@;
    out.append(&mut rest);
    proof {
        lemma_view_items_add(o, rv);
        assert(view_items(o) =~= seq![head@]);
    }
    out
}

proof fn lemma_non_system_has_no_system_text(ms: Seq<JsonV>)
    ensures
        forall|i: int|
            0 <= i < non_system_v(ms).len() ==> system_text_v(#[trigger] non_system_v(ms)[i])
                is None,
    decreases ms.len(),
{
    if ms.len() > 0 {
        lemma_non_system_has_no_system_text(ms.drop_last());
    }
}

/// Law: after gathering, no message but the first is a system message with
/// text content.
pub proof fn lemma_system_text_only_at_head(ms: Seq<JsonV>)
    ensures
        forall|i: int|
            0 < i < collapse_system_v(ms).len() ==> system_text_v(#[trigger] collapse_system_v(
                ms,
            )[i]) is None,
{
    lemma_non_system_has_no_system_text(ms);
    let r = collapse_system_v(ms);
    let rest = non_system_v(ms);
    if system_chunks_v(ms).len() > 0 {
        assert forall|i: int| 0 < i < r.len() implies system_text_v(#[trigger] r[i]) is None by {
            assert(r[i] == rest[i - 1]);
        }
    }
}

// ---------------------------------------------------------------------------
// Finishing the request

/// The request has a non-empty `tools` array.
pub open spec fn has_tools_v(chat: JsonV) -> bool {
    match get_array_v(chat, "tools"@) {
        Some(a) => a.len() > 0,
        None => false,
    }
}

/// The request as strict OpenAI-compatible upstreams want it: without
/// `tool_choice` and `parallel_tool_calls` when it has no tools, and with
/// `stream_options.include_usage` on for streaming requests.
pub open spec fn finalize_v(chat: JsonV, stream: bool) -> JsonV {
    let c1 = if has_tools_v(chat) {
        chat
    } else {
        remove_v(remove_v(chat, "tool_choice"@), "parallel_tool_calls"@)
    };
    if stream {
        match get_v(c1, "stream_options"@) {
            Some(JsonV::Object(e)) => set_v(
                c1,
                "stream_options"@,
                set_v(JsonV::Object(e), "include_usage"@, JsonV::Bool(true)),
            ),
            _ => set_v(
                c1,
                "stream_options"@,
                JsonV::Object(seq![("include_usage"@, JsonV::Bool(true))]),
            ),
        }
    } else {
        c1
    }
}

/// Drops tool settings without tools and asks streaming upstreams for usage.
pub fn finalize_chat_request(chat: &mut Json, stream: bool)
    requires
        stream ==> old(chat)@ is Object || old(chat)@ is Null,
    ensures
        final(chat)@ == finalize_v(old(chat)@, stream),
        old(chat)@ is Object && !has_tools_v(old(chat)@) ==> get_v(final(chat)@, "tool_choice"@)
            is None && get_v(final(chat)@, "parallel_tool_calls"@) is None,
        stream ==> (get_v(final(chat)@, "stream_options"@) matches Some(o) && get_v(
            o,
            "include_usage"@,
        ) == Some(JsonV::Bool(true))),
{
    let ghost c0 = chat@;
    let has_tools = match chat.get_array("tools") {
        Some(a) => a.len() > 0,
        None => false,
    };
    if !has_tools {
        chat.remove("tool_choice");
        chat.remove("parallel_tool_calls");
    }
    let ghost c1 = chat@;
    proof {
        if c0 is Object && !has_tools_v(c0) {
            reveal_strlit("tool_choice");
            reveal_strlit("parallel_tool_calls");
            assert("tool_choice"@.len() != "parallel_tool_calls"@.len());
            lemma_get_remove(c0, "tool_choice"@, "tool_choice"@);
            lemma_get_remove(remove_v(c0, "tool_choice"@), "parallel_tool_calls"@, "tool_choice"@);
            lemma_get_remove(
                remove_v(c0, "tool_choice"@),
                "parallel_tool_calls"@,
                "parallel_tool_calls"@,
            );
        }
    }
    if stream {
        let opts: Option<Json> = match chat.get("stream_options") {
            Some(o) => if o.is_object() {
                Some(deep_clone(o))
            } else {
                None
            },
            None => None,
        };
        let new_opts = match opts {
            Some(o) => {
                let mut o = o;
                o.set("include_usage", Json::Bool(true));
                o
            },
            None => object1("include_usage", Json::Bool(true)),
        };
        let ghost nv = new_opts@;
        chat.set("stream_options", new_opts);
        proof {
            lemma_get_set(c1, "stream_options"@, nv, "stream_options"@);
            match get_v(c1, "stream_options"@) {
                Some(JsonV::Object(e)) => {
                    lemma_get_set(JsonV::Object(e), "include_usage"@, JsonV::Bool(true), "include_usage"@);
                },
                _ => {
                    lemma_get_set(JsonV::Null, "include_usage"@, JsonV::Bool(true), "include_usage"@);
                },
            }
            if c0 is Object && !has_tools_v(c0) {
                reveal_strlit("tool_choice");
                reveal_strlit("parallel_tool_calls");
                reveal_strlit("stream_options");
                assert("tool_choice"@.len() != "stream_options"@.len());
                assert("parallel_tool_calls"@.len() != "stream_options"@.len());
                lemma_get_set(c1, "stream_options"@, nv, "tool_choice"@);
                lemma_get_set(c1, "stream_options"@, nv, "parallel_tool_calls"@);
            }
        }
    }
}

// ---------------------------------------------------------------------------
// The repair pipeline

/// What the history repair does beyond the steps every provider needs.
#[derive(Clone, Copy)]
pub struct RepairMessagesOptions {
    /// Carry reasoning on assistant tool-call messages (thinking models).
    pub preserve_reasoning_content: bool,
    /// Cut tool outputs longer than this to head and tail; 0 turns it off.
    pub tool_output_max_chars: usize,
}

impl Default for RepairMessagesOptions {
    fn default() -> (r: Self)
        ensures
            !r.preserve_reasoning_content,
            r.tool_output_max_chars == 0,
    {
        RepairMessagesOptions { preserve_reasoning_content: false, tool_output_max_chars: 0 }
    }
}

/// The repair options for a provider: reasoning is carried when the
/// provider needs it, truncation as configured.
pub fn repair_options_for_provider(provider: Option<&ProviderConfig>, tool_output_max_chars: usize) -> (r: RepairMessagesOptions)
    ensures
        r.preserve_reasoning_content == match provider {
            Some(p) => needs_reasoning_content_v(p@),
            None => false,
        },
        r.tool_output_max_chars == tool_output_max_chars,
{
    let preserve = match provider {
        Some(p) => provider_needs_reasoning_content(p),
        None => false,
    };
    RepairMessagesOptions { preserve_reasoning_content: preserve, tool_output_max_chars }
}

/// The whole repair: merge tool-call runs, answer every call, fill nullish
/// assistant content, carry reasoning if asked, truncate long tool outputs
/// if asked, and gather system text at the head.
pub open spec fn repair_v(ms: Seq<JsonV>, preserve_reasoning: bool, max_chars: nat) -> Seq<JsonV> {
    let a = merge_tool_call_runs_v(ms);
    let b = backfill_v(a);
    let c = fill_contents_v(b);
    let d = if preserve_reasoning {
        with_reasoning_v(c)
    } else {
        c
    };
    let e = if max_chars > 0 {
        truncate_tool_outputs_v(d, max_chars)
    } else {
        d
    };
    collapse_system_v(e)
}

proof fn lemma_assistant_fits(m: JsonV, max_chars: nat)
    requires
        role_is_v(m, "assistant"@),
    ensures
        tool_output_fits_v(m, max_chars),
{
    lemma_role_keys_differ();
}

proof fn lemma_merge_fits(ms: Seq<JsonV>, max_chars: nat)
    requires
        tool_outputs_fit_v(ms, max_chars),
    ensures
        tool_outputs_fit_v(merge_tool_call_runs_v(ms), max_chars),
    decreases ms.len(),
{
    if ms.len() == 0 {
    } else if ms.len() >= 2 && has_tool_calls_v(ms[0]) && has_tool_calls_v(ms[1]) {
        let c = combine_calls_v(ms[0], ms[1]);
        let n = seq![c] + ms.skip(2);
        lemma_combine_keeps_calls(ms[0], ms[1]);
        lemma_assistant_fits(c, max_chars);
        assert forall|i: int| 0 <= i < n.len() implies tool_output_fits_v(#[trigger] n[i], max_chars) by {
            if i > 0 {
                assert(n[i] == ms[i + 1]);
            }
        }
        lemma_merge_fits(n, max_chars);
    } else {
        let s = ms.skip(1);
        assert forall|i: int| 0 <= i < s.len() implies tool_output_fits_v(#[trigger] s[i], max_chars) by {
            assert(s[i] == ms[i + 1]);
        }
        lemma_merge_fits(s, max_chars);
        let r = seq![ms[0]] + merge_tool_call_runs_v(s);
        assert forall|i: int| 0 <= i < r.len() implies tool_output_fits_v(#[trigger] r[i], max_chars) by {
            if i > 0 {
                assert(r[i] == merge_tool_call_runs_v(s)[i - 1]);
            } else {
                assert(r[0] == ms[0]);
            }
        }
    }
}

proof fn lemma_backfill_fits(ms: Seq<JsonV>, max_chars: nat)
    requires
        tool_outputs_fit_v(ms, max_chars),
    ensures
        tool_outputs_fit_v(backfill_v(ms), max_chars),
    decreases ms.len(),
{
    if ms.len() == 0 {
    } else if has_tool_calls_v(ms[0]) && tool_call_ids_v(ms[0]).len() > 0 {
        let rest = ms.skip(1);
        lemma_tool_run_len(rest);
        let t = tool_run_len_v(rest);
        let ids = tool_call_ids_v(ms[0]);
        let block = rest.take(t as int);
        let a = answers_v(ids, block);
        let s = rest.skip(t as int);
        assert forall|i: int| 0 <= i < s.len() implies tool_output_fits_v(#[trigger] s[i], max_chars) by {
            assert(s[i] == ms[i + 1 + t]);
        }
        lemma_backfill_fits(s, max_chars);
        let b = backfill_v(s);
        let r = seq![ms[0]] + a + b;
        assert(r == backfill_v(ms));
        assert forall|i: int| 0 <= i < r.len() implies tool_output_fits_v(#[trigger] r[i], max_chars) by {
            if i == 0 {
                assert(r[0] == ms[0]);
            } else if i < 1 + a.len() {
                let k = i - 1;
                assert(r[i] == a[k]);
                lemma_last_answer(block, ids[k]);
                match last_answer_v(block, ids[k]) {
                    Some(m) => {
                        let j = choose|j: int| 0 <= j < block.len() && block[j] == m;
                        assert(block[j] == ms[j + 1]);
                    },
                    None => {
                        lemma_role_keys_differ();
                        let e = seq![
                            ("role"@, JsonV::Str("tool"@)),
                            ("tool_call_id"@, JsonV::Str(ids[k])),
                            ("content"@, JsonV::Str(Seq::<char>::empty())),
                        ];
                        crate::json::lemma_key_index(e, "content"@);
                        assert(crate::json::first_key_at(e, "content"@, 2));
                    },
                }
            } else {
                assert(r[i] == b[i - 1 - a.len()]);
            }
        }
    } else {
        let s = ms.skip(1);
        assert forall|i: int| 0 <= i < s.len() implies tool_output_fits_v(#[trigger] s[i], max_chars) by {
            assert(s[i] == ms[i + 1]);
        }
        lemma_backfill_fits(s, max_chars);
        let r = seq![ms[0]] + backfill_v(s);
        assert forall|i: int| 0 <= i < r.len() implies tool_output_fits_v(#[trigger] r[i], max_chars) by {
            if i > 0 {
                assert(r[i] == backfill_v(s)[i - 1]);
            } else {
                assert(r[0] == ms[0]);
            }
        }
    }
}

proof fn lemma_fill_fits(ms: Seq<JsonV>, max_chars: nat)
    requires
        tool_outputs_fit_v(ms, max_chars),
    ensures
        tool_outputs_fit_v(fill_contents_v(ms), max_chars),
{
    let r = fill_contents_v(ms);
    assert forall|i: int| 0 <= i < r.len() implies tool_output_fits_v(#[trigger] r[i], max_chars) by {
        let m = ms[i];
        assert(tool_output_fits_v(ms[i], max_chars));
        if has_tool_calls_v(m) && nullish_content_v(m) {
            lemma_role_keys_differ();
            lemma_get_set(m, "content"@, JsonV::Str(Seq::empty()), "role"@);
            lemma_assistant_fits(r[i], max_chars);
        }
    }
}

proof fn lemma_with_reasoning_fits(ms: Seq<JsonV>, max_chars: nat)
    requires
        tool_outputs_fit_v(ms, max_chars),
    ensures
        tool_outputs_fit_v(with_reasoning_v(ms), max_chars),
{
    let r = with_reasoning_v(ms);
    assert forall|i: int| 0 <= i < r.len() implies tool_output_fits_v(#[trigger] r[i], max_chars) by {
        let m = ms[i];
        assert(tool_output_fits_v(ms[i], max_chars));
        if has_tool_calls_v(m) && reasoning_field_v(m) is None {
            lemma_role_keys_differ();
            let v = JsonV::Str(
                match earlier_reasoning_v(ms.take(i)) {
                    Some(t) => t,
                    None => reasoning_placeholder(),
                },
            );
            lemma_get_set(m, "reasoning_content"@, v, "role"@);
            lemma_assistant_fits(r[i], max_chars);
        }
    }
}

/// Repairs a Chat message history (see [`repair_v`]).
pub fn repair_messages_for_upstream_with_options(
    messages: &mut Vec<Json>,
    options: RepairMessagesOptions,
)
    requires
        tool_outputs_fit_v(view_items(old(messages)@), options.tool_output_max_chars as nat),
    ensures
        view_items(final(messages)@) == repair_v(
            view_items(old(messages)@),
            options.preserve_reasoning_content,
            options.tool_output_max_chars as nat,
        ),
{
    let ghost ms = view_items(messages@);
    let ghost max = options.tool_output_max_chars as nat;
    let a = repair_chat_tool_message_sequence(messages);
    let b = backfill_missing_tool_responses(&a);
    let c = normalize_assistant_tool_call_content(&b);
    proof {
        lemma_merge_fits(ms, max);
        lemma_backfill_fits(view_items(a@), max);
        lemma_fill_fits(view_items(b@), max);
    }
    let mut d = if options.preserve_reasoning_content {
        let d = backfill_tool_call_reasoning_placeholders(&c);
        proof {
            lemma_with_reasoning_fits(view_items(c@), max);
        }
        d
    } else {
        c
    };
    if options.tool_output_max_chars > 0 {
        truncate_large_tool_outputs(&mut d, options.tool_output_max_chars);
    }
    *messages = collapse_system_messages_to_head(d);
}

/// Repairs a Chat message history with the default options.
pub fn repair_messages_for_upstream(messages: &mut Vec<Json>)
    ensures
        view_items(final(messages)@) == repair_v(view_items(old(messages)@), false, 0),
{
    let options = RepairMessagesOptions::default();
    proof {
        let ms = view_items(messages@);
        assert forall|i: int| 0 <= i < ms.len() implies tool_output_fits_v(#[trigger] ms[i], 0) by {}
    }
    repair_messages_for_upstream_with_options(messages, options);
}

} // verus!
