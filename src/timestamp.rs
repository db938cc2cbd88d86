use chrono::{DateTime, Utc};
use vstd::arithmetic::div_mod::lemma_fundamental_div_mod_converse;
use vstd::prelude::*;

use crate::decimal::{lemma_pow10_max_scale, lemma_pow10_monotonic, pow10, pow10_u128, Dec, MAX_SCALE};

verus! {

/// Nanoseconds in one second.
pub const NANOS_PER_SEC: u64 = 1_000_000_000;

/// An instant in UTC: whole seconds since 1970-01-01T00:00:00Z and the
/// nanoseconds past that second (more than a second's worth only during a
/// leap second).
#[derive(Debug, Clone, Copy, PartialEq, Eq, Structural)]
pub struct UtcTime {
    pub secs: i64,
    pub nanos: u32,
}

impl View for UtcTime {
    type V = UtcTime;

    open spec fn view(&self) -> UtcTime {
        *self
    }
}

impl UtcTime {
    pub open spec fn wf(self) -> bool {
        self.nanos < 2 * NANOS_PER_SEC
    }

    /// Nanoseconds since 1970-01-01T00:00:00Z.
    pub open spec fn total_nanos(self) -> int {
        self.secs * NANOS_PER_SEC + self.nanos
    }

    /// The instant `ns` nanoseconds after 1970-01-01T00:00:00Z.
    pub fn from_nanos(ns: i64) -> (r: UtcTime)
        ensures
            r == utc_of_nanos(ns as int),
            r.nanos < NANOS_PER_SEC,
            r.total_nanos() == ns,
    {
        let d: u64 = NANOS_PER_SEC;
        if ns >= 0 {
            let u = ns as u64;
            let r = UtcTime { secs: (u / d) as i64, nanos: (u % d) as u32 };
            proof {
                vstd::arithmetic::div_mod::lemma_fundamental_div_mod(u as int, d as int);
            }
            r
        } else {
            let a: u64 = (-(ns + 1)) as u64;
            let q: u64 = a / d;
            let rem: u64 = a % d;
            proof {
                vstd::arithmetic::div_mod::lemma_fundamental_div_mod(a as int, d as int);
                assert(ns == (-(q as int) - 1) * d + (d - 1 - rem)) by (nonlinear_arith)
                    requires
                        a == d * q + rem,
                        a == -(ns + 1),
                ;
                lemma_fundamental_div_mod_converse(
                    ns as int,
                    d as int,
                    -(q as int) - 1,
                    d - 1 - rem,
                );
            }
            UtcTime { secs: -(q as i64) - 1, nanos: (999_999_999 - rem) as u32 }
        }
    }

    /// The instant `ms` milliseconds after 1970-01-01T00:00:00Z.
    pub fn from_millis(ms: i64) -> (r: UtcTime)
        ensures
            r == utc_of_nanos(ms * 1_000_000),
            r.nanos < NANOS_PER_SEC,
            r.total_nanos() == ms * 1_000_000,
    {
        let d: u64 = 1000;
        let (secs, milli) = if ms >= 0 {
            let u = ms as u64;
            proof {
                vstd::arithmetic::div_mod::lemma_fundamental_div_mod(u as int, d as int);
            }
            ((u / d) as i64, u % d)
        } else {
            let a: u64 = (-(ms + 1)) as u64;
            let q: u64 = a / d;
            let rem: u64 = a % d;
            proof {
                vstd::arithmetic::div_mod::lemma_fundamental_div_mod(a as int, d as int);
                assert(ms == (-(q as int) - 1) * d + (d - 1 - rem)) by (nonlinear_arith)
                    requires
                        a == d * q + rem,
                        a == -(ms + 1),
                ;
            }
            (-(q as i64) - 1, 999 - rem)
        };
        let r = UtcTime { secs, nanos: (milli * 1_000_000) as u32 };
        proof {
            assert(ms * 1_000_000 == secs * NANOS_PER_SEC + milli * 1_000_000) by (nonlinear_arith)
                requires
                    ms == secs * 1000 + milli,
            ;
            lemma_fundamental_div_mod_converse(
                ms * 1_000_000,
                NANOS_PER_SEC as int,
                secs as int,
                milli * 1_000_000,
            );
        }
        r
    }

    /// The instant `t` seconds after 1970-01-01T00:00:00Z, cut to whole
    /// nanoseconds toward zero; none where that count does not fit 64 bits.
    pub fn from_decimal_seconds(t: &Dec) -> (r: Option<UtcTime>)
        requires
            t.wf(),
        ensures
            r == (if i64::MIN <= seconds_to_nanos(*t) <= i64::MAX {
                Some(utc_of_nanos(seconds_to_nanos(*t)))
            } else {
                None
            }),
    {
        let p = pow10_u128(t.scale);
        proof {
            lemma_pow10_monotonic(0, t.scale as nat);
            lemma_pow10_monotonic(t.scale as nat, MAX_SCALE as nat);
            lemma_pow10_max_scale();
        }
        let n: i128 = t.mantissa * 1_000_000_000;
        let q: i128 = if n >= 0 {
            ((n as u128) / p) as i128
        } else {
            -(((-n) as u128 / p) as i128)
        };
        assert(q == seconds_to_nanos(*t));
        if q < i64::MIN as i128 || q > i64::MAX as i128 {
            None
        } else {
            Some(UtcTime::from_nanos(q as i64))
        }
    }
}

/// The instant `n` nanoseconds after 1970-01-01T00:00:00Z.
pub open spec fn utc_of_nanos(n: int) -> UtcTime {
    UtcTime { secs: (n / NANOS_PER_SEC as int) as i64, nanos: (n % NANOS_PER_SEC as int) as u32 }
}

/// The instant of a count of nanoseconds is that count, for any count whose
/// whole seconds fit 64 bits.
pub proof fn lemma_utc_of_nanos(n: int)
    requires
        i64::MIN * 1_000_000_000 <= n <= i64::MAX * 1_000_000_000,
    ensures
        utc_of_nanos(n).total_nanos() == n,
        utc_of_nanos(n).nanos < NANOS_PER_SEC,
{
    let d = NANOS_PER_SEC as int;
    vstd::arithmetic::div_mod::lemma_fundamental_div_mod(n, d);
    assert(i64::MIN <= n / d <= i64::MAX) by {
        vstd::arithmetic::div_mod::lemma_div_is_ordered(i64::MIN * d, n, d);
        vstd::arithmetic::div_mod::lemma_div_is_ordered(n, i64::MAX * d, d);
        lemma_fundamental_div_mod_converse(i64::MIN * d, d, i64::MIN as int, 0);
        lemma_fundamental_div_mod_converse(i64::MAX * d, d, i64::MAX as int, 0);
    }
}

/// Division that rounds toward zero.
pub open spec fn trunc_div(a: int, d: int) -> int {
    if a >= 0 {
        a / d
    } else {
        -((-a) / d)
    }
}

/// Whole nanoseconds in `t` seconds, cut toward zero.
pub open spec fn seconds_to_nanos(t: Dec) -> int {
    trunc_div(t.mantissa * 1_000_000_000, pow10(t.scale as nat))
}

/// The instant that chrono reads from RFC 3339 / ISO 8601 text, if it reads one.
pub uninterp spec fn iso8601_instant(s: Seq<char>) -> Option<UtcTime>;

/// Relies on chrono's `FromStr for DateTime<Utc>`, which reads RFC 3339
/// text with any offset and moves it to UTC; a leap second may give
/// up to two seconds' worth of nanoseconds.
#[verifier::external_body]
pub(crate) fn parse_iso8601(s: &str) -> (r: Option<UtcTime>)
    ensures
        r == iso8601_instant(s@),
        r is Some ==> r->Some_0.wf(),
{
    match s.parse::<DateTime<Utc>>() {
        Ok(dt) => Some(UtcTime { secs: dt.timestamp(), nanos: dt.timestamp_subsec_nanos() }),
        Err(_) => None,
    }
}

/// Relies on chrono's `Utc::now`: the clock's reading, which may be any instant.
#[verifier::external_body]
pub(crate) fn utc_now() -> (r: UtcTime)
    ensures
        r.wf(),
{
    let dt = Utc::now();
    UtcTime { secs: dt.timestamp(), nanos: dt.timestamp_subsec_nanos() }
}

} // verus!
