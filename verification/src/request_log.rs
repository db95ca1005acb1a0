//! What the request log reads from upstream bodies: token usage, the model
//! name, and the clock label of an entry.
use vstd::prelude::*;

use crate::chat_to_responses::{u64_either_v, usage_in_v, usage_out_v, usage_sum_fits_v};
use crate::json::{get_str_v, get_v, number_u64_v, Json, JsonV};
use crate::text::{concat2, decimal_seq, push_char, push_str, u64_decimal};

verus! {

/// Token counts of one request.
#[derive(Clone, Copy)]
pub struct UsageSnapshot {
    pub input_tokens: u64,
    pub output_tokens: u64,
    pub total_tokens: u64,
}

impl Default for UsageSnapshot {
    fn default() -> (r: Self)
        ensures
            r.input_tokens == 0,
            r.output_tokens == 0,
            r.total_tokens == 0,
    {
        UsageSnapshot { input_tokens: 0, output_tokens: 0, total_tokens: 0 }
    }
}

/// The usage a `usage` object reports: input, output and total tokens (the
/// total defaults to their sum); `None` when it is not an object or all
/// three are zero.
pub open spec fn usage_object_v(usage: JsonV) -> Option<(u64, u64, u64)> {
    if usage is Object {
        let input = usage_in_v(usage);
        let output = usage_out_v(usage);
        let total: u64 = match get_v(usage, "total_tokens"@) {
            Some(v) => match number_u64_v(v) {
                Some(t) => t,
                None => (input + output) as u64,
            },
            None => (input + output) as u64,
        };
        if input == 0 && output == 0 && total == 0 {
            None
        } else {
            Some((input, output, total))
        }
    } else {
        None
    }
}

/// The usage of a response body: that of its `usage` member.
pub open spec fn body_usage_v(value: JsonV) -> Option<(u64, u64, u64)> {
    match get_v(value, "usage"@) {
        Some(u) => usage_object_v(u),
        None => None,
    }
}

/// The view of a usage snapshot.
pub open spec fn snapshot_v(u: Option<UsageSnapshot>) -> Option<(u64, u64, u64)> {
    match u {
        Some(s) => Some((s.input_tokens, s.output_tokens, s.total_tokens)),
        None => None,
    }
}

fn u64_member(j: &Json, k1: &str, k2: &str) -> (r: Option<u64>)
    ensures
        r == u64_either_v(j@, k1@, k2@),
{
    let v = match j.get(k1) {
        Some(v) => Some(v),
        None => j.get(k2),
    };
    match v {
        Some(v) => v.as_u64(),
        None => None,
    }
}

fn parse_usage_object(usage: &Json) -> (r: Option<UsageSnapshot>)
    requires
        usage_sum_fits_v(Some(usage@)),
    ensures
        snapshot_v(r) == usage_object_v(usage@),
{
    if !usage.is_object() {
        return None;
    }
    let input_tokens = match u64_member(usage, "prompt_tokens", "input_tokens") {
        Some(n) => n,
        None => 0,
    };
    let output_tokens = match u64_member(usage, "completion_tokens", "output_tokens") {
        Some(n) => n,
        None => 0,
    };
    let sum = input_tokens + output_tokens;
    let total_tokens = match usage.get("total_tokens") {
        Some(v) => match v.as_u64() {
            Some(t) => t,
            None => sum,
        },
        None => sum,
    };
    if input_tokens == 0 && output_tokens == 0 && total_tokens == 0 {
        return None;
    }
    Some(UsageSnapshot { input_tokens, output_tokens, total_tokens })
}

/// The token usage a response body reports.
pub fn parse_usage_from_json(value: &Json) -> (r: Option<UsageSnapshot>)
    requires
        usage_sum_fits_v(get_v(value@, "usage"@)),
    ensures
        snapshot_v(r) == body_usage_v(value@),
{
    match value.get("usage") {
        Some(u) => parse_usage_object(u),
        None => None,
    }
}

/// The `data:` payload of one server-sent event line: the line after
/// `data:` and one optional space.
pub open spec fn sse_payload_v(line: Seq<u8>) -> Option<Seq<u8>> {
    let prefix = seq![100u8, 97u8, 116u8, 97u8, 58u8];
    if line.len() >= 5 && line.take(5) == prefix {
        let rest = line.skip(5);
        if rest.len() > 0 && rest[0] == 32u8 {
            Some(rest.skip(1))
        } else {
            Some(rest)
        }
    } else {
        None
    }
}

/// The lines of a byte buffer, split at line feeds.
pub open spec fn lines_v(bytes: Seq<u8>) -> Seq<Seq<u8>>
    decreases bytes.len(),
{
    if bytes.len() == 0 {
        seq![Seq::empty()]
    } else {
        let r = lines_v(bytes.drop_last());
        if bytes.last() == 10u8 {
            r.push(Seq::empty())
        } else {
            r.update(r.len() - 1, r.last().push(bytes.last()))
        }
    }
}

proof fn lemma_lines_nonempty(bytes: Seq<u8>)
    ensures
        lines_v(bytes).len() > 0,
    decreases bytes.len(),
{
    if bytes.len() > 0 {
        lemma_lines_nonempty(bytes.drop_last());
    }
}

/// The bytes `[DONE]`.
pub open spec fn done_marker() -> Seq<u8> {
    seq![91u8, 68u8, 79u8, 78u8, 69u8, 93u8]
}

/// The `data:` payloads of the lines, without the `[DONE]` marker.
pub open spec fn payloads_v(lines: Seq<Seq<u8>>) -> Seq<Seq<u8>>
    decreases lines.len(),
{
    if lines.len() == 0 {
        Seq::empty()
    } else {
        let r = payloads_v(lines.drop_last());
        match sse_payload_v(lines.last()) {
            Some(p) => if p == done_marker() {
                r
            } else {
                r.push(p)
            },
            None => r,
        }
    }
}

fn line_payload(line: &Vec<u8>) -> (r: Option<Vec<u8>>)
    ensures
        match sse_payload_v(line@) {
            Some(p) => r is Some && r->0@ == p,
            None => r is None,
        },
{
    let n = line.len();
    if n < 5 || line[0] != 100u8 || line[1] != 97u8 || line[2] != 116u8 || line[3] != 97u8
        || line[4] != 58u8 {
        proof {
            if n >= 5 && line@.take(5) == seq![100u8, 97u8, 116u8, 97u8, 58u8] {
                assert(line@.take(5)[0] == line@[0]);
                assert(line@.take(5)[1] == line@[1]);
                assert(line@.take(5)[2] == line@[2]);
                assert(line@.take(5)[3] == line@[3]);
                assert(line@.take(5)[4] == line@[4]);
            }
        }
        return None;
    }
    assert(line@.take(5) =~= seq![100u8, 97u8, 116u8, 97u8, 58u8]);
    let start: usize = if n > 5 && line[5] == 32u8 {
        6
    } else {
        5
    };
    let mut out: Vec<u8> = Vec::new();
    let mut i = start;
    while i < n
        invariant
            start <= i <= n,
            n == line.len(),
            out@ == line@.subrange(start as int, i as int),
        decreases n - i,
    {
        out.push(line[i]);
        i = i + 1;
        assert(out@ =~= line@.subrange(start as int, i as int));
    }
    proof {
        if start == 6 {
            assert(line@.skip(5)[0] == line@[5]);
            assert(out@ =~= line@.skip(5).skip(1));
        } else {
            assert(out@ =~= line@.skip(5));
        }
    }
    Some(out)
}

fn is_done(p: &Vec<u8>) -> (r: bool)
    ensures
        r == (p@ == done_marker()),
{
    let r = p.len() == 6 && p[0] == 91u8 && p[1] == 68u8 && p[2] == 79u8 && p[3] == 78u8 && p[4]
        == 69u8 && p[5] == 93u8;
    proof {
        if r {
            assert(p@ =~= done_marker());
        }
        if p@ == done_marker() {
            assert(p@[0] == 91u8);
        }
    }
    r
}

/// The `data:` payloads of a server-sent event buffer, in order, without
/// the `[DONE]` marker; each is a JSON text to read usage from.
pub fn sse_data_payloads(bytes: &[u8]) -> (r: Vec<Vec<u8>>)
    ensures
        r@.len() == payloads_v(lines_v(bytes@)).len(),
        forall|i: int| 0 <= i < r@.len() ==> (#[trigger] r@[i])@ == payloads_v(lines_v(bytes@))[i],
{
    let ghost all = bytes@;
    let mut lines: Vec<Vec<u8>> = Vec::new();
    let mut cur: Vec<u8> = Vec::new();
    let mut i: usize = 0;
    proof {
        assert(all.take(0) =~= Seq::<u8>::empty());
    }
    while i < bytes.len()
        invariant
            i <= bytes.len(),
            all == bytes@,
            lines@.len() + 1 == lines_v(all.take(i as int)).len(),
            forall|k: int| 0 <= k < lines@.len() ==> (#[trigger] lines@[k])@ == lines_v(
                all.take(i as int),
            )[k],
            cur@ == lines_v(all.take(i as int)).last(),
        decreases bytes.len() - i,
    {
        proof {
            assert(all.take(i + 1).drop_last() =~= all.take(i as int));
            assert(all.take(i + 1).last() == all[i as int]);
            lemma_lines_nonempty(all.take(i as int));
        }
        let b = bytes[i];
        if b == 10u8 {
            let mut done_line: Vec<u8> = Vec::new();
            std::mem::swap(&mut done_line, &mut cur);
            lines.push(done_line);
        } else {
            cur.push(b);
        }
        i = i + 1;
    }
    proof {
        assert(all.take(bytes.len() as int) =~= all);
        lemma_lines_nonempty(all);
    }
    lines.push(cur);
    let ghost lv = lines_v(all);
    assert forall|k: int| 0 <= k < lines@.len() implies (#[trigger] lines@[k])@ == lv[k] by {}
    let mut out: Vec<Vec<u8>> = Vec::new();
    let mut j: usize = 0;
    proof {
        assert(lv.take(0) =~= Seq::<Seq<u8>>::empty());
    }
    while j < lines.len()
        invariant
            j <= lines.len(),
            lines@.len() == lv.len(),
            forall|k: int| 0 <= k < lines@.len() ==> (#[trigger] lines@[k])@ == lv[k],
            out@.len() == payloads_v(lv.take(j as int)).len(),
            forall|k: int| 0 <= k < out@.len() ==> (#[trigger] out@[k])@ == payloads_v(
                lv.take(j as int),
            )[k],
        decreases lines.len() - j,
    {
        proof {
            assert(lv.take(j + 1).drop_last() =~= lv.take(j as int));
            assert(lv.take(j + 1).last() == lv[j as int]);
        }
        match line_payload(&lines[j]) {
            Some(p) => if !is_done(&p) {
                out.push(p);
            },
            None => {},
        }
        j = j + 1;
    }
    proof {
        assert(lv.take(lines.len() as int) =~= lv);
    }
    out
}

/// The usage reported by the last payload, of those read so far, that
/// reports one.
pub open spec fn latest_usage_v(parsed: Seq<Option<Json>>) -> Option<(u64, u64, u64)>
    decreases parsed.len(),
{
    if parsed.len() == 0 {
        None
    } else {
        let here = match parsed.last() {
            Some(j) => body_usage_v(j@),
            None => None,
        };
        match here {
            Some(u) => Some(u),
            None => latest_usage_v(parsed.drop_last()),
        }
    }
}

/// Whether the usage sums of every payload read as JSON fit in a `u64`.
pub open spec fn payload_usages_fit(parsed: Seq<Option<Json>>) -> bool {
    forall|i: int|
        0 <= i < parsed.len() ==> match #[trigger] parsed[i] {
            Some(j) => usage_sum_fits_v(get_v(j@, "usage"@)),
            None => true,
        }
}

/// The usage of a stream of server-sent event payloads, each given as JSON
/// where it is JSON: that of the last payload reporting one.
pub fn latest_usage(parsed: &Vec<Option<Json>>) -> (r: Option<UsageSnapshot>)
    requires
        payload_usages_fit(parsed@),
    ensures
        snapshot_v(r) == latest_usage_v(parsed@),
{
    let mut latest: Option<UsageSnapshot> = None;
    let mut i: usize = 0;
    proof {
        assert(parsed@.take(0) =~= Seq::<Option<Json>>::empty());
    }
    while i < parsed.len()
        invariant
            i <= parsed.len(),
            payload_usages_fit(parsed@),
            snapshot_v(latest) == latest_usage_v(parsed@.take(i as int)),
        decreases parsed.len() - i,
    {
        proof {
            assert(parsed@.take(i + 1).drop_last() =~= parsed@.take(i as int));
            assert(parsed@.take(i + 1).last() == parsed@[i as int]);
        }
        match &parsed[i] {
            Some(j) => {
                proof {
                    assert(usage_sum_fits_v(get_v(j@, "usage"@)));
                }
                match parse_usage_from_json(j) {
                    Some(u) => {
                        latest = Some(u);
                    },
                    None => {},
                }
            },
            None => {},
        }
        i = i + 1;
    }
    proof {
        assert(parsed@.take(parsed@.len() as int) =~= parsed@);
    }
    latest
}

/// The model a request body names when non-empty, else the fallback.
pub open spec fn body_model_v(parsed: Option<JsonV>, fallback: Seq<char>) -> Seq<char> {
    match parsed {
        Some(v) => match get_str_v(v, "model"@) {
            Some(m) => if m.len() > 0 {
                m
            } else {
                fallback
            },
            None => fallback,
        },
        None => fallback,
    }
}

/// The model a request body (read as JSON, when it is) names, or the
/// fallback.
pub fn extract_model_from_body(parsed: Option<&Json>, fallback: &str) -> (r: String)
    ensures
        r@ == body_model_v(
            match parsed {
                Some(v) => Some(v@),
                None => None,
            },
            fallback@,
        ),
{
    match parsed {
        Some(v) => match v.get_str("model") {
            Some(m) => if !m.is_empty() {
                m.to_string()
            } else {
                fallback.to_string()
            },
            None => fallback.to_string(),
        },
        None => fallback.to_string(),
    }
}

/// `n` in decimal, padded with zeros to `width` digits.
pub open spec fn padded_v(n: nat, width: nat) -> Seq<char> {
    let d = decimal_seq(n);
    if d.len() < width {
        Seq::new((width - d.len()) as nat, |i: int| '0') + d
    } else {
        d
    }
}

fn padded(n: u64, width: usize) -> (r: String)
    ensures
        r@ == padded_v(n as nat, width as nat),
{
    let d = u64_decimal(n);
    let len = crate::text::chars_of(d.as_str()).len();
    let mut r = String::new();
    let mut k: usize = len;
    while k < width
        invariant
            len <= k <= width || (len > width && k == len),
            len == d@.len(),
            r@ == Seq::new((k - len) as nat, |i: int| '0'),
        decreases width - k,
    {
        push_char(&mut r, '0');
        k = k + 1;
        assert(r@ =~= Seq::new((k - len) as nat, |i: int| '0'));
    }
    push_str(&mut r, d.as_str());
    proof {
        if len >= width {
            assert(r@ =~= d@);
        }
    }
    r
}

/// Integer division as Rust does it: the quotient rounded toward zero.
pub open spec fn quot_v(a: int, b: int) -> int {
    if a >= 0 {
        a / b
    } else {
        -((-a) / b)
    }
}

/// The remainder as Rust computes it, with the sign of `a`.
pub open spec fn rem_v(a: int, b: int) -> int {
    a - b * quot_v(a, b)
}

/// `n` as `{:0width$}` writes it: zero-padded, after the sign when negative.
pub open spec fn signed_padded_v(n: int, width: nat) -> Seq<char> {
    if n >= 0 {
        padded_v(n as nat, width)
    } else {
        "-"@ + padded_v((-n) as nat, (width - 1) as nat)
    }
}

/// The clock label `HH:MM:SS.mmm` (UTC) of a time in milliseconds since the
/// epoch; before the epoch the parts come out negative and the milliseconds
/// wrap around as a `u32`.
pub open spec fn time_label_v(time_ms: int) -> Seq<char> {
    let secs = quot_v(time_ms, 1000);
    let ms = rem_v(time_ms, 1000);
    let ms32: nat = if ms >= 0 {
        ms as nat
    } else {
        (ms + 0x1_0000_0000) as nat
    };
    let local = rem_v(secs, 86400);
    signed_padded_v(quot_v(local, 3600), 2) + ":"@ + signed_padded_v(quot_v(rem_v(local, 3600), 60), 2)
        + ":"@ + signed_padded_v(rem_v(local, 60), 2) + "."@ + padded_v(ms32, 3)
}

fn signed_padded(negative: bool, magnitude: u64, width: usize) -> (r: String)
    requires
        width >= 1,
    ensures
        r@ == signed_padded_v(
            if negative {
                -(magnitude as int)
            } else {
                magnitude as int
            },
            width as nat,
        ),
{
    if !negative || magnitude == 0 {
        return padded(magnitude, width);
    }
    let mut r = "-".to_string();
    push_str(&mut r, padded(magnitude, width - 1).as_str());
    r
}

/// Formats the clock label of a log entry.
pub fn format_time_label(time_ms: i64) -> (r: String)
    ensures
        r@ == time_label_v(time_ms as int),
{
    let negative = time_ms < 0;
    let a: u64 = if negative {
        (0i128 - time_ms as i128) as u64
    } else {
        time_ms as u64
    };
    let secs = a / 1000;
    let ms = a % 1000;
    let local = secs % 86400;
    let h = local / 3600;
    let m = (local % 3600) / 60;
    let s = local % 60;
    let ms32: u64 = if negative && ms > 0 {
        0x1_0000_0000 - ms
    } else {
        ms
    };
    proof {
        let t = time_ms as int;
        if negative {
            assert(a == -t);
            assert(quot_v(t, 1000) == -(secs as int));
            assert(rem_v(t, 1000) == -(ms as int));
            let sc = quot_v(t, 1000);
            if secs == 0 {
                assert(rem_v(sc, 86400) == 0);
            } else {
                assert(rem_v(sc, 86400) == -(local as int));
            }
            let l = rem_v(sc, 86400);
            assert(l == -(local as int));
            if local == 0 {
                assert(quot_v(l, 3600) == 0);
                assert(rem_v(l, 3600) == 0);
                assert(rem_v(l, 60) == 0);
            } else {
                assert(quot_v(l, 3600) == -(h as int));
                assert(rem_v(l, 3600) == -((local % 3600) as int));
                if local % 3600 == 0 {
                    assert(quot_v(rem_v(l, 3600), 60) == 0);
                } else {
                    assert(quot_v(rem_v(l, 3600), 60) == -(m as int));
                }
                assert(rem_v(l, 60) == -(s as int));
            }
        }
    }
    let mut r = signed_padded(negative, h, 2);
    push_str(&mut r, ":");
    push_str(&mut r, signed_padded(negative, m, 2).as_str());
    push_str(&mut r, ":");
    push_str(&mut r, signed_padded(negative, s, 2).as_str());
    push_str(&mut r, ".");
    push_str(&mut r, padded(ms32, 3).as_str());
    r
}

// ---------------------------------------------------------------------------
// The in-memory request log

/// How many entries the log keeps; older ones are dropped.
pub const MAX_ENTRIES: usize = 300;

/// One request as logged.
pub struct RequestLogEntry {
    pub id: String,
    /// Milliseconds since the epoch.
    pub time_ms: i64,
    pub time_label: String,
    pub provider_id: String,
    pub provider_name: String,
    pub model: String,
    pub path: String,
    pub stream: bool,
    pub status: u16,
    pub duration_ms: u64,
    pub input_tokens: u64,
    pub output_tokens: u64,
    pub total_tokens: u64,
    /// The estimated cost as shown, or `—`.
    pub cost_label: String,
    /// The upstream answered with a 2xx or 3xx status.
    pub ok: bool,
}

impl RequestLogEntry {
    /// A copy of the entry.
    pub fn clone_entry(&self) -> (r: RequestLogEntry)
        ensures
            r == *self,
    {
        RequestLogEntry {
            id: self.id.clone(),
            time_ms: self.time_ms,
            time_label: self.time_label.clone(),
            provider_id: self.provider_id.clone(),
            provider_name: self.provider_name.clone(),
            model: self.model.clone(),
            path: self.path.clone(),
            stream: self.stream,
            status: self.status,
            duration_ms: self.duration_ms,
            input_tokens: self.input_tokens,
            output_tokens: self.output_tokens,
            total_tokens: self.total_tokens,
            cost_label: self.cost_label.clone(),
            ok: self.ok,
        }
    }
}

/// A request on its way upstream, before its outcome is known.
pub struct PendingRequest {
    pub provider_id: String,
    pub provider_name: String,
    pub model: String,
    pub path: String,
    pub stream: bool,
    /// The upstream status (0 until there is one).
    pub status: u16,
}

/// A status counted as success in the log.
pub open spec fn status_ok_v(status: u16) -> bool {
    200 <= status < 400
}

/// Turns a finished request into its log entry: its usage (none counts as
/// zero), when it ended, how long it took and its cost label.
pub fn finalize_entry(
    pending: PendingRequest,
    usage: Option<UsageSnapshot>,
    id: String,
    time_ms: i64,
    duration_ms: u64,
    cost_label: String,
) -> (r: RequestLogEntry)
    ensures
        r.id == id,
        r.time_ms == time_ms,
        r.time_label@ == time_label_v(time_ms as int),
        r.provider_id == pending.provider_id,
        r.provider_name == pending.provider_name,
        r.model == pending.model,
        r.path == pending.path,
        r.stream == pending.stream,
        r.status == pending.status,
        r.duration_ms == duration_ms,
        snapshot_v(Some(
            UsageSnapshot {
                input_tokens: r.input_tokens,
                output_tokens: r.output_tokens,
                total_tokens: r.total_tokens,
            },
        )) == match snapshot_v(usage) {
            Some(u) => Some(u),
            None => Some((0u64, 0u64, 0u64)),
        },
        r.cost_label == cost_label,
        r.ok == status_ok_v(pending.status),
{
    let u = match usage {
        Some(u) => u,
        None => UsageSnapshot::default(),
    };
    let time_label = format_time_label(time_ms);
    RequestLogEntry {
        id,
        time_ms,
        time_label,
        provider_id: pending.provider_id,
        provider_name: pending.provider_name,
        model: pending.model,
        path: pending.path,
        stream: pending.stream,
        status: pending.status,
        duration_ms,
        input_tokens: u.input_tokens,
        output_tokens: u.output_tokens,
        total_tokens: u.total_tokens,
        cost_label,
        ok: pending.status >= 200 && pending.status < 400,
    }
}

/// The last `n` items of `s` (all of them when there are fewer).
pub open spec fn keep_last_v<T>(s: Seq<T>, n: nat) -> Seq<T> {
    if s.len() > n {
        s.skip(s.len() - n)
    } else {
        s
    }
}

/// The most recent requests, oldest first.
pub struct RequestLogStore {
    entries: Vec<RequestLogEntry>,
}

impl View for RequestLogStore {
    type V = Seq<RequestLogEntry>;

    closed spec fn view(&self) -> Seq<RequestLogEntry> {
        self.entries@
    }
}

/// Token totals of the logged requests.
pub struct RequestLogSummary {
    pub count: usize,
    pub total_input_tokens: u64,
    pub total_output_tokens: u64,
}

/// The sum of the input tokens of entries.
pub open spec fn input_sum_v(s: Seq<RequestLogEntry>) -> nat
    decreases s.len(),
{
    if s.len() == 0 {
        0
    } else {
        input_sum_v(s.drop_last()) + s.last().input_tokens as nat
    }
}

/// The sum of the output tokens of entries.
pub open spec fn output_sum_v(s: Seq<RequestLogEntry>) -> nat
    decreases s.len(),
{
    if s.len() == 0 {
        0
    } else {
        output_sum_v(s.drop_last()) + s.last().output_tokens as nat
    }
}

proof fn lemma_sums_grow(s: Seq<RequestLogEntry>, i: int)
    requires
        0 <= i <= s.len(),
    ensures
        input_sum_v(s.take(i)) <= input_sum_v(s),
        output_sum_v(s.take(i)) <= output_sum_v(s),
    decreases s.len() - i,
{
    if i < s.len() {
        lemma_sums_grow(s, i + 1);
        assert(s.take(i + 1).drop_last() =~= s.take(i));
    } else {
        assert(s.take(i) =~= s);
    }
}

impl RequestLogStore {
    /// The log holds at most [`MAX_ENTRIES`] entries.
    pub closed spec fn wf(&self) -> bool {
        self.entries@.len() <= MAX_ENTRIES
    }

    /// An empty log.
    pub fn new() -> (r: RequestLogStore)
        ensures
            r.wf(),
            r@ == Seq::<RequestLogEntry>::empty(),
    {
        RequestLogStore { entries: Vec::new() }
    }

    /// How many entries the log holds.
    pub fn len(&self) -> (r: usize)
        ensures
            r == self@.len(),
    {
        self.entries.len()
    }

    /// Appends an entry, dropping the oldest beyond [`MAX_ENTRIES`].
    pub fn push(&mut self, entry: RequestLogEntry)
        requires
            old(self).wf(),
        ensures
            final(self).wf(),
            final(self)@ == keep_last_v(old(self)@.push(entry), MAX_ENTRIES as nat),
    {
        let ghost s = self.entries@.push(entry);
        self.entries.push(entry);
        if self.entries.len() > MAX_ENTRIES {
            self.entries.remove(0);
            assert(self.entries@ =~= s.skip(s.len() - MAX_ENTRIES));
        }
    }

    /// The entries, newest first.
    pub fn list(&self) -> (r: Vec<RequestLogEntry>)
        ensures
            r@ == self@.reverse(),
    {
        let mut out: Vec<RequestLogEntry> = Vec::new();
        let mut i: usize = self.entries.len();
        while i > 0
            invariant
                i <= self.entries@.len(),
                out@ == self.entries@.skip(i as int).reverse(),
            decreases i,
        {
            i = i - 1;
            out.push(self.entries[i].clone_entry());
            assert(out@ =~= self.entries@.skip(i as int).reverse());
        }
        assert(self.entries@.skip(0) =~= self.entries@);
        out
    }

    /// Drops every entry.
    pub fn clear(&mut self)
        ensures
            final(self).wf(),
            final(self)@ == Seq::<RequestLogEntry>::empty(),
    {
        self.entries.clear();
    }

    /// The number of entries and their token totals.
    pub fn summary(&self) -> (r: RequestLogSummary)
        requires
            input_sum_v(self@) <= u64::MAX,
            output_sum_v(self@) <= u64::MAX,
        ensures
            r.count == self@.len(),
            r.total_input_tokens == input_sum_v(self@),
            r.total_output_tokens == output_sum_v(self@),
    {
        let ghost s = self.entries@;
        let mut total_in: u64 = 0;
        let mut total_out: u64 = 0;
        let mut i: usize = 0;
        while i < self.entries.len()
            invariant
                i <= s.len(),
                s == self.entries@,
                input_sum_v(s) <= u64::MAX,
                output_sum_v(s) <= u64::MAX,
                total_in == input_sum_v(s.take(i as int)),
                total_out == output_sum_v(s.take(i as int)),
            decreases s.len() - i,
        {
            proof {
                assert(s.take(i + 1).drop_last() =~= s.take(i as int));
                lemma_sums_grow(s, i + 1);
            }
            total_in = total_in + self.entries[i].input_tokens;
            total_out = total_out + self.entries[i].output_tokens;
            i = i + 1;
        }
        proof {
            assert(s.take(s.len() as int) =~= s);
        }
        RequestLogSummary {
            count: self.entries.len(),
            total_input_tokens: total_in,
            total_output_tokens: total_out,
        }
    }
}

} // verus!
