//! Canonical JSON text: compact, object members ordered by key.
//!
//! Tool-call arguments and tool outputs are passed upstream in this form, so
//! two payloads with the same content always produce the same text.
use vstd::prelude::*;

use crate::json::{view_entries, view_items, view_json, Json, JsonV};
use crate::text::{chars_of, push_char, push_str, blank, is_blank};

verus! {

// ---------------------------------------------------------------------------
// String literals

/// The lower-case hexadecimal digit of `d` (for `d < 16`).
pub open spec fn hex_digit(d: nat) -> char {
    if d < 10 {
        (d + 48) as char
    } else {
        (d + 87) as char
    }
}

/// The JSON escape of one character, as serde_json writes it.
pub open spec fn escape_char(c: char) -> Seq<char> {
    if c == '"' {
        seq!['\\', '"']
    } else if c == '\\' {
        seq!['\\', '\\']
    } else if c == '\x08' {
        seq!['\\', 'b']
    } else if c == '\x0C' {
        seq!['\\', 'f']
    } else if c == '\n' {
        seq!['\\', 'n']
    } else if c == '\r' {
        seq!['\\', 'r']
    } else if c == '\t' {
        seq!['\\', 't']
    } else if (c as u32) < 0x20 {
        seq!['\\', 'u', '0', '0', hex_digit((c as nat) / 16), hex_digit((c as nat) % 16)]
    } else {
        seq![c]
    }
}

/// The escaped body of a JSON string literal.
pub open spec fn escape_seq(s: Seq<char>) -> Seq<char>
    decreases s.len(),
{
    if s.len() == 0 {
        Seq::empty()
    } else {
        escape_seq(s.drop_last()) + escape_char(s.last())
    }
}

/// `s` as a JSON string literal.
pub open spec fn quote_seq(s: Seq<char>) -> Seq<char> {
    seq!['"'] + escape_seq(s) + seq!['"']
}

/// `serde_json::to_string` on a string slice: the JSON string literal of `s`
/// (quotes around it; `"`, `\`, and control characters escaped, the latter as
/// `\b \f \n \r \t` or `\u00xx`; every other character written as itself).
#[verifier::external_body]
pub(crate) fn json_quote(s: &str) -> (r: String)
    ensures
        r@ == quote_seq(s@),
{
    serde_json::to_string(s).unwrap()
}

// ---------------------------------------------------------------------------
// Ordering of keys

/// Lexicographic order of character sequences (the order of `String`).
pub open spec fn seq_lt(a: Seq<char>, b: Seq<char>) -> bool
    decreases a.len(),
{
    if a.len() == 0 {
        b.len() > 0
    } else if b.len() == 0 {
        false
    } else if a[0] != b[0] {
        (a[0] as u32) < (b[0] as u32)
    } else {
        seq_lt(a.drop_first(), b.drop_first())
    }
}

proof fn lemma_seq_lt_skip(a: Seq<char>, b: Seq<char>, i: int)
    requires
        0 <= i <= a.len(),
        i <= b.len(),
        forall|k: int| 0 <= k < i ==> a[k] == b[k],
    ensures
        seq_lt(a, b) == seq_lt(a.skip(i), b.skip(i)),
    decreases i,
{
    if i > 0 {
        assert(a[0] == b[0]);
        lemma_seq_lt_skip(a.drop_first(), b.drop_first(), i - 1);
        assert(a.drop_first().skip(i - 1) =~= a.skip(i));
        assert(b.drop_first().skip(i - 1) =~= b.skip(i));
    } else {
        assert(a.skip(0) =~= a);
        assert(b.skip(0) =~= b);
    }
}

/// Whether `a` sorts before `b`.
pub fn key_less(a: &str, b: &str) -> (r: bool)
    ensures
        r == seq_lt(a@, b@),
{
    let x = chars_of(a);
    let y = chars_of(b);
    let mut i: usize = 0;
    while i < x.len() && i < y.len() && x[i] == y[i]
        invariant
            i <= x.len(),
            i <= y.len(),
            x@ == a@,
            y@ == b@,
            forall|k: int| 0 <= k < i ==> x@[k] == y@[k],
        decreases x.len() - i,
    {
        i = i + 1;
    }
    proof {
        lemma_seq_lt_skip(a@, b@, i as int);
    }
    if i == x.len() {
        proof {
            assert(a@.skip(i as int).len() == 0);
        }
        i < y.len()
    } else if i == y.len() {
        false
    } else {
        proof {
            assert(a@.skip(i as int)[0] == x@[i as int]);
            assert(b@.skip(i as int)[0] == y@[i as int]);
        }
        (x[i] as u32) < (y[i] as u32)
    }
}

// ---------------------------------------------------------------------------
// Stable insertion sort of (key, text) pairs

/// `p` placed into `t` before the first pair whose key is greater than its own.
pub open spec fn insert_pair(t: Seq<(Seq<char>, Seq<char>)>, p: (Seq<char>, Seq<char>)) -> Seq<
    (Seq<char>, Seq<char>),
>
    decreases t.len(),
{
    if t.len() == 0 {
        seq![p]
    } else if seq_lt(p.0, t[0].0) {
        seq![p] + t
    } else {
        seq![t[0]] + insert_pair(t.drop_first(), p)
    }
}

/// The pairs ordered by key; pairs with equal keys keep their order.
pub open spec fn sort_pairs(s: Seq<(Seq<char>, Seq<char>)>) -> Seq<(Seq<char>, Seq<char>)>
    decreases s.len(),
{
    if s.len() == 0 {
        s
    } else {
        insert_pair(sort_pairs(s.drop_last()), s.last())
    }
}

proof fn lemma_insert_pair_at(t: Seq<(Seq<char>, Seq<char>)>, p: (Seq<char>, Seq<char>), k: int)
    requires
        0 <= k <= t.len(),
        forall|j: int| 0 <= j < k ==> !seq_lt(p.0, #[trigger] t[j].0),
        k == t.len() || seq_lt(p.0, t[k].0),
    ensures
        insert_pair(t, p) == t.take(k).push(p) + t.skip(k),
    decreases t.len(),
{
    if t.len() == 0 {
        assert(t.take(k).push(p) + t.skip(k) =~= seq![p]);
    } else if k == 0 {
        assert(t.take(0).push(p) + t.skip(0) =~= seq![p] + t);
    } else {
        let u = t.drop_first();
        assert forall|j: int| 0 <= j < k - 1 implies !seq_lt(p.0, #[trigger] u[j].0) by {
            assert(u[j] == t[j + 1]);
        }
        if k < t.len() {
            assert(u[k - 1] == t[k]);
        }
        lemma_insert_pair_at(u, p, k - 1);
        assert(!seq_lt(p.0, t[0].0));
        assert(seq![t[0]] + (u.take(k - 1).push(p) + u.skip(k - 1)) =~= t.take(k).push(p)
            + t.skip(k));
    }
}

/// The views of (key, text) string pairs.
pub open spec fn pairs_view(s: Seq<(String, String)>) -> Seq<(Seq<char>, Seq<char>)> {
    s.map_values(|p: (String, String)| (p.0@, p.1@))
}

/// Sorts (key, text) pairs by key, keeping pairs with equal keys in order.
pub fn sort_by_key(v: Vec<(String, String)>) -> (r: Vec<(String, String)>)
    ensures
        pairs_view(r@) == sort_pairs(pairs_view(v@)),
{
    let mut sorted: Vec<(String, String)> = Vec::new();
    let mut rest = v;
    let ghost all = pairs_view(rest@);
    let ghost mut i: int = 0;
    proof {
        assert(all.take(0) =~= Seq::<(Seq<char>, Seq<char>)>::empty());
        assert(pairs_view(sorted@) =~= sort_pairs(all.take(0)));
        assert(all.skip(0) =~= all);
    }
    while rest.len() > 0
        invariant
            0 <= i <= all.len(),
            pairs_view(rest@) == all.skip(i),
            pairs_view(sorted@) == sort_pairs(all.take(i)),
        decreases rest.len(),
    {
        let ghost before = rest@;
        let p = rest.remove(0);
        proof {
            assert(i < all.len()) by {
                assert(pairs_view(before).len() == before.len());
            }
            assert(pairs_view(before)[0] == (p.0@, p.1@));
            assert(all.skip(i)[0] == all[i]);
            assert(pairs_view(rest@) =~= all.skip(i + 1)) by {
                assert(pairs_view(before).len() == before.len());
                assert(pairs_view(rest@).len() == rest@.len());
                assert(rest@.len() == before.len() - 1);
                assert forall|j: int| 0 <= j < rest@.len() implies pairs_view(rest@)[j] == all.skip(
                    i + 1,
                )[j] by {
                    assert(pairs_view(before).len() == before.len());
                    assert(rest@[j] == before[j + 1]);
                    assert(pairs_view(before)[j + 1] == all.skip(i)[j + 1]);
                    assert(all.skip(i)[j + 1] == all[i + j + 1]);
                    assert(all.skip(i + 1)[j] == all[i + 1 + j]);
                }
            }
        }
        // find the insertion point
        let mut k: usize = 0;
        while k < sorted.len() && !key_less(p.0.as_str(), sorted[k].0.as_str())
            invariant
                k <= sorted.len(),
                forall|j: int| 0 <= j < k ==> !seq_lt(p.0@, #[trigger] pairs_view(sorted@)[j].0),
            decreases sorted.len() - k,
        {
            k = k + 1;
        }
        let ghost t = pairs_view(sorted@);
        proof {
            lemma_insert_pair_at(t, (p.0@, p.1@), k as int);
            assert(all.take(i + 1).drop_last() =~= all.take(i));
            assert(all.take(i + 1).last() == all[i]);
        }
        sorted.insert(k, p);
        proof {
            assert(pairs_view(sorted@) =~= t.take(k as int).push(all[i]) + t.skip(k as int));
            i = i + 1;
        }
    }
    proof {
        assert(all.take(i) =~= all);
    }
    sorted
}

// ---------------------------------------------------------------------------
// Canonical text

/// Texts joined by commas.
pub open spec fn join_commas(parts: Seq<Seq<char>>) -> Seq<char>
    decreases parts.len(),
{
    if parts.len() == 0 {
        Seq::empty()
    } else if parts.len() == 1 {
        parts[0]
    } else {
        join_commas(parts.drop_last()) + seq![','] + parts.last()
    }
}

/// The canonical texts of array items.
pub open spec fn item_texts(items: Seq<JsonV>) -> Seq<Seq<char>>
    decreases items, 1nat,
{
    Seq::new(
        items.len(),
        |i: int|
            if 0 <= i < items.len() {
                canonical_v(items[i])
            } else {
                Seq::empty()
            },
    )
}

/// Each member as `(key, "key":value)`.
pub open spec fn member_texts(e: Seq<(Seq<char>, JsonV)>) -> Seq<(Seq<char>, Seq<char>)>
    decreases e, 1nat,
{
    Seq::new(
        e.len(),
        |i: int|
            if 0 <= i < e.len() {
                (e[i].0, quote_seq(e[i].0) + seq![':'] + canonical_v(e[i].1))
            } else {
                (Seq::empty(), Seq::empty())
            },
    )
}

/// The canonical JSON text of a value: compact, object members ordered by key.
pub open spec fn canonical_v(j: JsonV) -> Seq<char>
    decreases j, 0nat,
{
    match j {
        JsonV::Null => seq!['n', 'u', 'l', 'l'],
        JsonV::Bool(b) => if b {
            seq!['t', 'r', 'u', 'e']
        } else {
            seq!['f', 'a', 'l', 's', 'e']
        },
        JsonV::Number(n) => n,
        JsonV::Str(s) => quote_seq(s),
        JsonV::Array(items) => seq!['['] + join_commas(item_texts(items)) + seq![']'],
        JsonV::Object(e) => seq!['{'] + join_commas(
            sort_pairs(member_texts(e)).map_values(|p: (Seq<char>, Seq<char>)| p.1),
        ) + seq!['}'],
    }
}

proof fn lemma_join_push(parts: Seq<Seq<char>>, p: Seq<char>)
    ensures
        join_commas(parts.push(p)) == if parts.len() == 0 {
            p
        } else {
            join_commas(parts) + seq![','] + p
        },
{
    assert(parts.push(p).drop_last() =~= parts);
}

/// Appends `parts` joined by commas to `out`.
fn append_joined(out: &mut String, parts: &Vec<String>)
    ensures
        final(out)@ == old(out)@ + join_commas(parts@.map_values(|s: String| s@)),
{
    let ghost start = out@;
    let ghost pv = parts@.map_values(|s: String| s@);
    let mut i: usize = 0;
    proof {
        assert(pv.take(0) =~= Seq::<Seq<char>>::empty());
        assert(start + join_commas(pv.take(0)) =~= start);
    }
    while i < parts.len()
        invariant
            i <= parts.len(),
            pv == parts@.map_values(|s: String| s@),
            out@ == start + join_commas(pv.take(i as int)),
        decreases parts.len() - i,
    {
        proof {
            lemma_join_push(pv.take(i as int), pv[i as int]);
            assert(pv.take(i + 1) =~= pv.take(i as int).push(pv[i as int]));
        }
        if i > 0 {
            push_char(out, ',');
        }
        push_str(out, parts[i].as_str());
        i = i + 1;
    }
    proof {
        assert(pv.take(parts.len() as int) =~= pv);
    }
}

/// The canonical JSON text of `j`.
pub fn canonical_json_string(j: &Json) -> (r: String)
    ensures
        r@ == canonical_v(j@),
    decreases j, 0nat,
{
    match j {
        Json::Null => {
            let r = "null".to_string();
            proof {
                reveal_strlit("null");
            }
            assert(r@ =~= seq!['n', 'u', 'l', 'l']);
            r
        },
        Json::Bool(b) => {
            if *b {
                let r = "true".to_string();
                proof {
                    reveal_strlit("true");
                }
                assert(r@ =~= seq!['t', 'r', 'u', 'e']);
                r
            } else {
                let r = "false".to_string();
                proof {
                    reveal_strlit("false");
                }
                assert(r@ =~= seq!['f', 'a', 'l', 's', 'e']);
                r
            }
        },
        Json::Number(n) => n.clone(),
        Json::Str(s) => json_quote(s.as_str()),
        Json::Array(items) => canonical_array(items),
        Json::Object(e) => canonical_object(e),
    }
}

/// The views of a sequence of strings.
pub open spec fn strings_view(s: Seq<String>) -> Seq<Seq<char>> {
    Seq::new(s.len(), |i: int| s[i]@)
}

/// The canonical text of an array with the given items.
fn canonical_array(items: &Vec<Json>) -> (r: String)
    ensures
        r@ == seq!['['] + join_commas(item_texts(view_items(items@))) + seq![']'],
    decreases items, 1nat,
{
    let ghost iv = view_items(items@);
    let mut texts: Vec<String> = Vec::new();
    let mut i: usize = 0;
    while i < items.len()
        invariant
            i <= items.len(),
            iv == view_items(items@),
            strings_view(texts@) == item_texts(iv).take(i as int),
        decreases items.len() - i,
    {
        assert(decreases_to!(items => items@));
        assert(decreases_to!(items@ => items@[i as int]));
        let t = canonical_json_string(&items[i]);
        let ghost prev = texts@;
        texts.push(t);
        proof {
            assert(iv.len() == items.len());
            assert(item_texts(iv).len() == iv.len());
            assert(strings_view(prev).len() == prev.len());
            assert(prev.len() == i);
            assert(iv[i as int] == view_json(items[i as int]));
            assert forall|k: int| 0 <= k <= i implies strings_view(texts@)[k] == item_texts(iv).take(
                i + 1,
            )[k] by {
                if k < i {
                    assert(strings_view(prev)[k] == item_texts(iv).take(i as int)[k]);
                }
            }
            assert(strings_view(texts@) =~= item_texts(iv).take(i + 1));
        }
        i = i + 1;
    }
    proof {
        assert(item_texts(iv).take(items.len() as int) =~= item_texts(iv));
        assert(strings_view(texts@) =~= texts@.map_values(|s: String| s@));
    }
    let mut out = String::new();
    push_char(&mut out, '[');
    append_joined(&mut out, &texts);
    push_char(&mut out, ']');
    proof {
        assert(out@ =~= seq!['['] + join_commas(item_texts(iv)) + seq![']']);
    }
    out
}

/// The canonical text of an object with the given members.
fn canonical_object(e: &Vec<(String, Json)>) -> (r: String)
    ensures
        r@ == seq!['{'] + join_commas(
            sort_pairs(member_texts(view_entries(e@))).map_values(|p: (Seq<char>, Seq<char>)| p.1),
        ) + seq!['}'],
    decreases e, 1nat,
{
    let ghost ev = view_entries(e@);
    let mut pieces: Vec<(String, String)> = Vec::new();
    let mut i: usize = 0;
    while i < e.len()
        invariant
            i <= e.len(),
            ev == view_entries(e@),
            pairs_view(pieces@) == member_texts(ev).take(i as int),
        decreases e.len() - i,
    {
        assert(decreases_to!(e => e@));
        assert(decreases_to!(e@ => e@[i as int]));
        assert(decreases_to!(e@[i as int] => e@[i as int].1));
        let v = canonical_json_string(&e[i].1);
        let mut text = json_quote(e[i].0.as_str());
        push_char(&mut text, ':');
        push_str(&mut text, v.as_str());
        let key = e[i].0.clone();
        let ghost prev = pieces@;
        pieces.push((key, text));
        proof {
            assert(ev.len() == e.len());
            assert(member_texts(ev).len() == ev.len());
            assert(pairs_view(prev).len() == prev.len());
            assert(prev.len() == i);
            assert(ev[i as int] == (e[i as int].0@, view_json(e[i as int].1)));
            assert forall|k: int| 0 <= k <= i implies pairs_view(pieces@)[k] == member_texts(
                ev,
            ).take(i + 1)[k] by {
                if k < i {
                    assert(pairs_view(prev)[k] == member_texts(ev).take(i as int)[k]);
                }
            }
            assert(pairs_view(pieces@) =~= member_texts(ev).take(i + 1));
        }
        i = i + 1;
    }
    proof {
        assert(member_texts(ev).take(e.len() as int) =~= member_texts(ev));
    }
    let sorted = sort_by_key(pieces);
    let ghost sv = sort_pairs(member_texts(ev));
    let ghost tv = sv.map_values(|p: (Seq<char>, Seq<char>)| p.1);
    let mut texts: Vec<String> = Vec::new();
    let mut k: usize = 0;
    while k < sorted.len()
        invariant
            k <= sorted.len(),
            pairs_view(sorted@) == sv,
            tv == sv.map_values(|p: (Seq<char>, Seq<char>)| p.1),
            strings_view(texts@) == tv.take(k as int),
        decreases sorted.len() - k,
    {
        let ghost prev = texts@;
        texts.push(sorted[k].1.clone());
        proof {
            assert(pairs_view(sorted@).len() == sorted@.len());
            assert(tv.len() == sv.len());
            assert(strings_view(prev).len() == prev.len());
            assert(prev.len() == k);
            assert(pairs_view(sorted@)[k as int] == (sorted@[k as int].0@, sorted@[k as int].1@));
            assert forall|m: int| 0 <= m <= k implies strings_view(texts@)[m] == tv.take(k + 1)[m] by {
                if m < k {
                    assert(strings_view(prev)[m] == tv.take(k as int)[m]);
                }
            }
            assert(strings_view(texts@) =~= tv.take(k + 1));
        }
        k = k + 1;
    }
    proof {
        assert(tv.take(sorted.len() as int) =~= tv);
        assert(strings_view(texts@) =~= texts@.map_values(|s: String| s@));
    }
    let mut out = String::new();
    push_char(&mut out, '{');
    append_joined(&mut out, &texts);
    push_char(&mut out, '}');
    proof {
        assert(out@ =~= seq!['{'] + join_commas(tv) + seq!['}']);
    }
    out
}

// ---------------------------------------------------------------------------
// Re-formatting JSON text

/// What `serde_json` makes of `text`: the compact text of the parsed value
/// (object members ordered by key), or `None` when `text` is not JSON.
pub uninterp spec fn reformatted_json_text(text: Seq<char>) -> Option<Seq<char>>;

/// `serde_json::from_str` followed by `Value::to_string`: parses `text` and
/// writes the value back compactly; `None` when it does not parse.
#[verifier::external_body]
fn reformat_json_text(text: &str) -> (r: Option<String>)
    ensures
        match reformatted_json_text(text@) {
            Some(t) => r is Some && r->0@ == t,
            None => r is None,
        },
{
    serde_json::from_str::<serde_json::Value>(text).ok().map(|v| v.to_string())
}

/// The canonical text of `value` when it is JSON (after trimming), otherwise
/// `value` itself; blank input is returned unchanged.
pub open spec fn canonicalize_if_parseable_v(value: Seq<char>) -> Seq<char> {
    if is_blank(value) {
        value
    } else {
        match reformatted_json_text(crate::text::trim_seq(value)) {
            Some(t) => t,
            None => value,
        }
    }
}

/// Re-writes `value` canonically when it is JSON text.
pub fn canonicalize_json_string_if_parseable(value: &str) -> (r: String)
    ensures
        r@ == canonicalize_if_parseable_v(value@),
{
    if blank(value) {
        return value.to_string();
    }
    let trimmed = crate::text::trim(value);
    match reformat_json_text(trimmed.as_str()) {
        Some(t) => t,
        None => value.to_string(),
    }
}

/// Tool-call arguments text: `{}` when blank, otherwise as
/// [`canonicalize_if_parseable_v`].
pub open spec fn canonical_tool_arguments_str_v(value: Seq<char>) -> Seq<char> {
    if is_blank(value) {
        seq!['{', '}']
    } else {
        canonicalize_if_parseable_v(value)
    }
}

/// Normalizes a tool-call `arguments` string into a JSON payload: blank
/// arguments become `{}`.
pub fn canonicalize_tool_arguments_str(value: &str) -> (r: String)
    ensures
        r@ == canonical_tool_arguments_str_v(value@),
{
    if blank(value) {
        let r = "{}".to_string();
        proof {
            reveal_strlit("{}");
        }
        assert(r@ =~= seq!['{', '}']);
        return r;
    }
    canonicalize_json_string_if_parseable(value)
}

/// Tool-call arguments from an optional JSON value: a string is normalized as
/// text, another value is written canonically, a missing one is `{}`.
pub open spec fn canonical_tool_arguments_v(value: Option<JsonV>) -> Seq<char> {
    match value {
        Some(JsonV::Str(s)) => canonical_tool_arguments_str_v(s),
        Some(v) => canonical_v(v),
        None => seq!['{', '}'],
    }
}

/// The `arguments` text of a tool call.
pub fn canonicalize_tool_arguments(value: Option<&Json>) -> (r: String)
    ensures
        r@ == canonical_tool_arguments_v(match value {
            Some(v) => Some(v@),
            None => None,
        }),
{
    match value {
        Some(Json::Str(s)) => canonicalize_tool_arguments_str(s.as_str()),
        Some(v) => canonical_json_string(v),
        None => {
            let r = "{}".to_string();
            proof {
                reveal_strlit("{}");
            }
            assert(r@ =~= seq!['{', '}']);
            r
        },
    }
}


// ---------------------------------------------------------------------------
// Short content hashes

/// The SHA-256 digest of some bytes.
pub uninterp spec fn sha256_v(bytes: Seq<u8>) -> Seq<u8>;

/// `sha2::Sha256::digest`: the SHA-256 digest of the bytes, which is 32
/// bytes long.
#[verifier::external_body]
fn sha256_digest(bytes: &[u8]) -> (r: Vec<u8>)
    ensures
        r@ == sha256_v(bytes@),
        r@.len() == 32,
{
    <sha2::Sha256 as sha2::Digest>::digest(bytes).to_vec()
}

/// Bytes in lower-case hexadecimal, two digits each.
pub open spec fn hex_v(bytes: Seq<u8>) -> Seq<char>
    decreases bytes.len(),
{
    if bytes.len() == 0 {
        Seq::empty()
    } else {
        hex_v(bytes.drop_last()) + seq![
            hex_digit((bytes.last() / 16) as nat),
            hex_digit((bytes.last() % 16) as nat),
        ]
    }
}

fn hex_char(d: u8) -> (c: char)
    requires
        d < 16,
    ensures
        c == hex_digit(d as nat),
{
    if d < 10 {
        (d + 48) as char
    } else {
        (d + 87) as char
    }
}

/// A short hash of some bytes: the first 8 bytes of their SHA-256 digest,
/// in hexadecimal.
pub fn short_sha256_hex(bytes: &[u8]) -> (r: String)
    ensures
        r@ == hex_v(sha256_v(bytes@).take(8)),
{
    let d = sha256_digest(bytes);
    let mut r = String::new();
    let mut i: usize = 0;
    proof {
        assert(d@.take(0) =~= Seq::<u8>::empty());
    }
    while i < 8
        invariant
            i <= 8,
            d@.len() == 32,
            r@ == hex_v(d@.take(i as int)),
        decreases 8 - i,
    {
        let b = d[i];
        push_char(&mut r, hex_char(b / 16));
        push_char(&mut r, hex_char(b % 16));
        proof {
            assert(d@.take(i + 1).drop_last() =~= d@.take(i as int));
            assert(d@.take(i + 1).last() == b);
            assert(r@ =~= hex_v(d@.take(i + 1)));
        }
        i = i + 1;
    }
    r
}

} // verus!
