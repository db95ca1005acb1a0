//! Bounded retries of transient upstream failures (429, 502, 503, 504 and
//! connection errors).
use vstd::prelude::*;

use crate::json::{all_digits, digits_value};
use vstd::arithmetic::power2::{lemma2_to64, lemma2_to64_rest, lemma_pow2_strictly_increases, lemma_pow2_unfold, pow2};
use crate::text::{chars_of, trim};

verus! {

/// How many times one request is sent upstream at most.
pub const MAX_UPSTREAM_ATTEMPTS: usize = 3;

/// The upstream status codes worth retrying.
pub open spec fn retryable_status_v(status: u16) -> bool {
    status == 429 || status == 502 || status == 503 || status == 504
}

/// Rate limiting and gateway errors are retried.
pub fn is_retryable_upstream_status(status: u16) -> (r: bool)
    ensures
        r == retryable_status_v(status),
{
    status == 429 || status == 502 || status == 503 || status == 504
}

/// The backoff multiplier for an attempt: `2^attempt` (the attempt taken
/// as `u32`), or 8 when that shift does not fit in 64 bits.
pub open spec fn backoff_multiplier_v(attempt: usize) -> nat {
    let shift = attempt as u32;
    if shift < 64 {
        pow2(shift as nat)
    } else {
        8
    }
}

/// The backoff before retrying after `attempt`, in milliseconds: 500 ms
/// times the multiplier.
pub open spec fn backoff_ms_v(attempt: usize) -> nat {
    500 * backoff_multiplier_v(attempt)
}

/// The backoff of this attempt fits in 64 bits (it does not for shifts
/// from 56 to 63).
pub open spec fn backoff_defined(attempt: usize) -> bool {
    let shift = attempt as u32;
    shift < 56 || shift >= 64
}

/// The backoff before the next attempt, in milliseconds.
pub fn retry_backoff_ms(attempt: usize) -> (r: u64)
    requires
        backoff_defined(attempt),
    ensures
        r == backoff_ms_v(attempt),
{
    let shift = attempt as u32;
    if shift >= 64 {
        return 4000;
    }
    assert(shift < 56);
    let mut m: u64 = 1;
    let mut i: u32 = 0;
    proof {
        lemma2_to64();
        lemma2_to64_rest();
    }
    while i < shift
        invariant
            i <= shift < 56,
            m == pow2(i as nat),
            pow2(55) == 0x80_0000_0000_0000,
        decreases shift - i,
    {
        proof {
            lemma_pow2_unfold((i + 1) as nat);
            lemma_pow2_strictly_increases((i + 1) as nat, 56);
            lemma2_to64_rest();
        }
        m = m * 2;
        i = i + 1;
    }
    proof {
        if shift < 55 {
            lemma_pow2_strictly_increases(shift as nat, 55);
        }
    }
    500 * m
}

/// The duration `Duration::from_millis` makes of `ms` milliseconds.
pub uninterp spec fn duration_of_millis(ms: u64) -> std::time::Duration;

/// `Duration::from_millis`: its result is named by `duration_of_millis`.
#[verifier::external_body]
fn duration_from_millis(ms: u64) -> (r: std::time::Duration)
    ensures
        r == duration_of_millis(ms),
{
    std::time::Duration::from_millis(ms)
}

/// The backoff before the next attempt.
pub fn retry_backoff(attempt: usize) -> (r: std::time::Duration)
    requires
        backoff_defined(attempt),
    ensures
        r == duration_of_millis(backoff_ms_v(attempt) as u64),
{
    duration_from_millis(retry_backoff_ms(attempt))
}

/// The value of a text as `u64`, as `str::parse` reads it: an optional `+`
/// and decimal digits, without surrounding space, not above `u64::MAX`.
pub open spec fn parse_u64_v(s: Seq<char>) -> Option<u64> {
    let d = if s.len() > 0 && s[0] == '+' {
        s.drop_first()
    } else {
        s
    };
    if d.len() > 0 && all_digits(d) && digits_value(d) <= u64::MAX {
        Some(digits_value(d) as u64)
    } else {
        None
    }
}

/// Parses a decimal `u64`.
pub fn parse_u64(s: &str) -> (r: Option<u64>)
    ensures
        r == parse_u64_v(s@),
{
    let v = chars_of(s);
    let start: usize = if v.len() > 0 && v[0] == '+' {
        1
    } else {
        0
    };
    let ghost d = v@.skip(start as int);
    proof {
        if start == 1 {
            assert(d =~= s@.drop_first());
        } else {
            assert(d =~= s@);
        }
    }
    if v.len() == start {
        return None;
    }
    let mut acc: Option<u64> = Some(0);
    let mut i: usize = start;
    proof {
        assert(d.take(0) =~= Seq::<char>::empty());
    }
    while i < v.len()
        invariant
            start <= i <= v.len(),
            v@ == s@,
            d == v@.skip(start as int),
            d == (if s@.len() > 0 && s@[0] == '+' {
                s@.drop_first()
            } else {
                s@
            }),
            all_digits(d.take(i - start)),
            match acc {
                Some(a) => a == digits_value(d.take(i - start)),
                None => digits_value(d.take(i - start)) > u64::MAX,
            },
        decreases v.len() - i,
    {
        let c = v[i];
        proof {
            assert(d[i - start] == c);
        }
        if !('0' <= c && c <= '9') {
            proof {
                assert(!('0' <= d[i - start] <= '9'));
                assert(!all_digits(d));
            }
            return None;
        }
        let digit = (c as u32 - 48) as u64;
        proof {
            let k = i - start;
            assert(d.take(k + 1).drop_last() =~= d.take(k));
            assert(d.take(k + 1).last() == c);
            assert forall|j: int| 0 <= j < k + 1 implies '0' <= #[trigger] d.take(k + 1)[j] <= '9' by {
                if j < k {
                    assert(d.take(k + 1)[j] == d.take(k)[j]);
                }
            }
        }
        acc = match acc {
            Some(a) => match a.checked_mul(10) {
                Some(m) => m.checked_add(digit),
                None => None,
            },
            None => None,
        };
        i = i + 1;
    }
    proof {
        assert(d.take(v.len() - start) =~= d);
    }
    acc
}

/// The longest wait a `Retry-After` header can ask for, in seconds.
pub const MAX_RETRY_AFTER_SECS: u64 = 30;

/// The wait before retrying, in milliseconds: the `Retry-After` seconds
/// (capped at 30) when the header holds a number, the backoff otherwise.
pub open spec fn retry_delay_ms_v(retry_after: Option<Seq<char>>, attempt: usize) -> nat {
    match retry_after {
        Some(v) => match parse_u64_v(crate::text::trim_seq(v)) {
            Some(s) => {
                let capped: nat = if s < 30 {
                    s as nat
                } else {
                    30
                };
                capped * 1000
            },
            None => backoff_ms_v(attempt),
        },
        None => backoff_ms_v(attempt),
    }
}

/// The wait before retrying, in milliseconds, from a `Retry-After` value.
pub fn retry_delay_ms(retry_after: Option<&str>, attempt: usize) -> (r: u64)
    requires
        backoff_defined(attempt),
    ensures
        r == retry_delay_ms_v(
            match retry_after {
                Some(v) => Some(v@),
                None => None,
            },
            attempt,
        ),
{
    match retry_after {
        Some(v) => {
            let t = trim(v);
            match parse_u64(t.as_str()) {
                Some(s) => {
                    let capped = if s < MAX_RETRY_AFTER_SECS {
                        s
                    } else {
                        MAX_RETRY_AFTER_SECS
                    };
                    capped * 1000
                },
                None => retry_backoff_ms(attempt),
            }
        },
        None => retry_backoff_ms(attempt),
    }
}

/// The wait before retrying, from a `Retry-After` value.
pub fn retry_delay_from_retry_after(retry_after: Option<&str>, attempt: usize) -> (r: std::time::Duration)
    requires
        backoff_defined(attempt),
    ensures
        r == duration_of_millis(
            retry_delay_ms_v(
                match retry_after {
                    Some(v) => Some(v@),
                    None => None,
                },
                attempt,
            ) as u64,
        ),
{
    duration_from_millis(retry_delay_ms(retry_after, attempt))
}

/// Law: the backoff doubles from one attempt to the next while it is
/// defined.
pub proof fn lemma_backoff_doubles(attempt: usize)
    requires
        attempt < 55,
    ensures
        backoff_ms_v((attempt + 1) as usize) == 2 * backoff_ms_v(attempt),
{
    assert((attempt as u32) == attempt);
    assert(((attempt + 1) as usize) as u32 == attempt + 1);
    lemma_pow2_unfold((attempt + 1) as nat);
}

/// Law: a `Retry-After` never makes the proxy wait longer than 30 seconds.
pub proof fn lemma_retry_after_is_capped(v: Seq<char>, attempt: usize)
    requires
        parse_u64_v(crate::text::trim_seq(v)) is Some,
    ensures
        retry_delay_ms_v(Some(v), attempt) <= 30000,
{
}

/// Law: the upstream statuses that are retried are exactly 429 (too many
/// requests), 502 (bad gateway), 503 (service unavailable) and 504
/// (gateway timeout).
pub proof fn lemma_retryable_statuses()
    ensures
        forall|s: u16| retryable_status_v(s) <==> (s == 429 || s == 502 || s == 503 || s == 504),
{
}

} // verus!
