//! Spans of time and instants.

use vstd::arithmetic::power2::{
    lemma2_to64, lemma_pow2_strictly_increases, lemma_pow2_unfold, pow2,
};
use vstd::prelude::*;

verus! {

/// Nanoseconds in a second.
pub const NANOS_PER_SEC: u32 = 1_000_000_000;

/// The last representable second: 262142-12-31T23:59:59Z.
pub const MAX_SECS: i64 = 8_210_266_876_799;

/// The first representable second: -262143-01-01T00:00:00Z.
pub const MIN_SECS: i64 = -8_334_601_228_800;

/// The longest span: `u64::MAX` seconds and 999 999 999 nanoseconds.
pub open spec fn max_span() -> int {
    18_446_744_073_709_551_615_999_999_999
}

/// The longest span that fits in 64 signed bits of milliseconds.
pub open spec fn max_signed_span() -> int {
    9_223_372_036_854_775_807_000_000
}

/// A span of time, in nanoseconds.
#[derive(Debug, Clone, Copy, PartialEq, Eq, Structural)]
pub struct Duration {
    nanos: u128,
}

impl Duration {
    #[verifier::type_invariant]
    spec fn in_range(self) -> bool {
        self.nanos <= max_span()
    }

    /// The length of the span in nanoseconds.
    pub closed spec fn total(self) -> int {
        self.nanos as int
    }

    /// Whether the span fits in 64 signed bits of milliseconds.
    pub fn fits_signed(&self) -> (fits: bool)
        ensures
            fits == (self.total() <= max_signed_span()),
    {
        self.nanos <= 9_223_372_036_854_775_807_000_000
    }

    /// The empty span.
    pub fn zero() -> (span: Duration)
        ensures
            span.total() == 0,
    {
        Duration { nanos: 0 }
    }

    /// The longest span.
    pub fn longest() -> (span: Duration)
        ensures
            span.total() == max_span(),
    {
        Duration { nanos: 18_446_744_073_709_551_615_999_999_999 }
    }

    /// A span of whole seconds.
    pub fn from_secs(secs: u64) -> (span: Duration)
        ensures
            span.total() == secs * 1_000_000_000,
    {
        Duration { nanos: (secs as u128) * 1_000_000_000 }
    }

    /// A span of whole milliseconds.
    pub fn from_millis(millis: u64) -> (span: Duration)
        ensures
            span.total() == millis * 1_000_000,
    {
        Duration { nanos: (millis as u128) * 1_000_000 }
    }

    /// A span of nanoseconds.
    pub fn from_nanos(nanos: u64) -> (span: Duration)
        ensures
            span.total() == nanos,
    {
        Duration { nanos: nanos as u128 }
    }

    /// Whether the span is empty.
    pub fn is_zero(&self) -> (zero: bool)
        ensures
            zero == (self.total() == 0),
    {
        self.nanos == 0
    }

    /// The whole seconds of the span.
    pub fn as_secs(&self) -> (secs: u64)
        ensures
            secs == self.total() / 1_000_000_000,
    {
        proof {
            use_type_invariant(self);
        }
        (self.nanos / 1_000_000_000) as u64
    }

    /// The nanoseconds past the last whole second.
    pub fn subsec_nanos(&self) -> (nanos: u32)
        ensures
            nanos == self.total() % 1_000_000_000,
            nanos < NANOS_PER_SEC,
    {
        (self.nanos % 1_000_000_000) as u32
    }

    /// The span doubled `times` times, or `max` where that is shorter.
    pub fn doubled(&self, times: u32, max: Duration) -> (span: Duration)
        ensures
            span.total() == if self.total() * pow2(times as nat) <= max.total() {
                self.total() * pow2(times as nat)
            } else {
                max.total()
            },
    {
        proof {
            use_type_invariant(self);
            use_type_invariant(max);
            lemma2_to64();
        }
        let unit: u128 = self.nanos;
        let ceiling: u128 = max.nanos;
        if unit == 0 {
            assert(unit * pow2(times as nat) == 0) by (nonlinear_arith)
                requires
                    unit == 0,
            ;
            return Duration { nanos: 0 };
        }
        let mut nanos: u128 = unit;
        let mut i: u32 = 0;
        while i < times && nanos <= ceiling
            invariant
                i <= times,
                0 < unit,
                ceiling <= max_span(),
                nanos <= 2 * max_span(),
                nanos == unit * pow2(i as nat),
            decreases times - i,
        {
            proof {
                lemma_pow2_unfold((i + 1) as nat);
                let a = pow2(i as nat) as int;
                assert(unit * (2 * a) == 2 * (unit * a)) by (nonlinear_arith);
            }
            nanos = nanos * 2;
            i = i + 1;
        }
        proof {
            if i < times {
                lemma_pow2_strictly_increases(i as nat, times as nat);
            }
            let a = pow2(i as nat) as int;
            let b = pow2(times as nat) as int;
            assert(unit * a <= unit * b) by (nonlinear_arith)
                requires
                    0 < unit,
                    a <= b,
            ;
        }
        if nanos <= ceiling {
            Duration { nanos }
        } else {
            max
        }
    }
}

/// No span is negative.
pub proof fn lemma_span_is_not_negative(span: Duration)
    ensures
        span.total() >= 0,
{
}

/// An instant, counted from 1970-01-01T00:00:00Z without leap seconds.
#[derive(Debug, Clone, Copy, PartialEq, Eq, Structural)]
pub struct Timestamp {
    secs: i64,
    nanos: u32,
}

/// The last instant, in nanoseconds.
pub open spec fn max_instant() -> int {
    MAX_SECS * 1_000_000_000 + 999_999_999
}

/// The first instant, in nanoseconds.
pub open spec fn min_instant() -> int {
    MIN_SECS * 1_000_000_000
}

/// Whether `secs` and `nanos` name an instant.
pub open spec fn is_instant(secs: int, nanos: int) -> bool {
    MIN_SECS <= secs <= MAX_SECS && 0 <= nanos < 1_000_000_000
}

impl Timestamp {
    #[verifier::type_invariant]
    spec fn in_range(self) -> bool {
        is_instant(self.secs as int, self.nanos as int)
    }

    /// The instant in nanoseconds.
    pub closed spec fn total(self) -> int {
        self.secs * 1_000_000_000 + self.nanos
    }

    /// The instant `nanos` past `secs`, where that is representable.
    pub fn new(secs: i64, nanos: u32) -> (at: Option<Timestamp>)
        ensures
            at is Some <==> is_instant(secs as int, nanos as int),
            at matches Some(t) ==> t.total() == secs * 1_000_000_000 + nanos,
    {
        if MIN_SECS <= secs && secs <= MAX_SECS && nanos < NANOS_PER_SEC {
            Some(Timestamp { secs, nanos })
        } else {
            None
        }
    }

    /// The last instant.
    pub fn last() -> (at: Timestamp)
        ensures
            at.total() == max_instant(),
    {
        Timestamp { secs: MAX_SECS, nanos: 999_999_999 }
    }

    /// The whole seconds.
    pub fn secs(&self) -> (secs: i64)
        ensures
            MIN_SECS <= secs <= MAX_SECS,
            secs == self.total() / 1_000_000_000,
    {
        proof {
            use_type_invariant(self);
        }
        self.secs
    }

    /// The nanoseconds past the last whole second.
    pub fn subsec_nanos(&self) -> (nanos: u32)
        ensures
            nanos < NANOS_PER_SEC,
            nanos == self.total() % 1_000_000_000,
    {
        proof {
            use_type_invariant(self);
        }
        self.nanos
    }

    /// Whether `self` is no later than `other`.
    pub fn at_or_before(&self, other: &Timestamp) -> (holds: bool)
        ensures
            holds == (self.total() <= other.total()),
    {
        proof {
            use_type_invariant(self);
            use_type_invariant(other);
        }
        self.secs < other.secs || (self.secs == other.secs && self.nanos <= other.nanos)
    }

    /// The instant `span` later, where that is representable.
    pub fn checked_add(&self, span: Duration) -> (at: Option<Timestamp>)
        ensures
            at is Some <==> self.total() + span.total() <= max_instant(),
            at matches Some(t) ==> t.total() == self.total() + span.total(),
    {
        proof {
            use_type_invariant(self);
            use_type_invariant(&span);
        }
        match add_span(self.secs, self.nanos, span.as_secs(), span.subsec_nanos()) {
            Some((secs, nanos)) => Some(Timestamp { secs, nanos }),
            None => None,
        }
    }

    /// The instant `span` earlier, where that is representable.
    pub fn checked_sub(&self, span: Duration) -> (at: Option<Timestamp>)
        ensures
            at is Some <==> self.total() - span.total() >= min_instant(),
            at matches Some(t) ==> t.total() == self.total() - span.total(),
    {
        proof {
            use_type_invariant(self);
            use_type_invariant(&span);
        }
        match sub_span(self.secs, self.nanos, span.as_secs(), span.subsec_nanos()) {
            Some((secs, nanos)) => Some(Timestamp { secs, nanos }),
            None => None,
        }
    }

    /// The instant `span` later, or the last instant where that is out of range.
    pub fn saturating_add(&self, span: Duration) -> (at: Timestamp)
        ensures
            at.total() == if self.total() + span.total() <= max_instant() {
                self.total() + span.total()
            } else {
                max_instant()
            },
    {
        match self.checked_add(span) {
            Some(at) => at,
            None => Timestamp::last(),
        }
    }
}

/// `chrono::DateTime::checked_add_signed` on a UTC instant and a span that
/// `chrono::TimeDelta::from_std` accepts: the exact sum, and nothing exactly where
/// the sum lies past the last instant. A span that `from_std` refuses is longer
/// than the whole range, so it yields nothing too.
#[verifier::external_body]
fn add_span(secs: i64, nanos: u32, span_secs: u64, span_nanos: u32) -> (at: Option<(i64, u32)>)
    requires
        is_instant(secs as int, nanos as int),
        span_nanos < 1_000_000_000,
    ensures
        at is Some <==> (secs + span_secs) * 1_000_000_000 + nanos + span_nanos <= max_instant(),
        at matches Some(t) ==> is_instant(t.0 as int, t.1 as int) && t.0 * 1_000_000_000 + t.1 == (
        secs + span_secs) * 1_000_000_000 + nanos + span_nanos,
{
    let start = chrono::DateTime::<chrono::Utc>::from_timestamp(secs, nanos)?;
    let span = std::time::Duration::new(span_secs, span_nanos);
    let end = start.checked_add_signed(chrono::TimeDelta::from_std(span).ok()?)?;
    Some((end.timestamp(), end.timestamp_subsec_nanos()))
}

/// `chrono::DateTime::checked_sub_signed` on a UTC instant and a span that
/// `chrono::TimeDelta::from_std` accepts: the exact difference, and nothing exactly
/// where it lies before the first instant. A span that `from_std` refuses is longer
/// than the whole range, so it yields nothing too.
#[verifier::external_body]
fn sub_span(secs: i64, nanos: u32, span_secs: u64, span_nanos: u32) -> (at: Option<(i64, u32)>)
    requires
        is_instant(secs as int, nanos as int),
        span_nanos < 1_000_000_000,
    ensures
        at is Some <==> (secs - span_secs) * 1_000_000_000 + nanos - span_nanos >= min_instant(),
        at matches Some(t) ==> is_instant(t.0 as int, t.1 as int) && t.0 * 1_000_000_000 + t.1 == (
        secs - span_secs) * 1_000_000_000 + nanos - span_nanos,
{
    let start = chrono::DateTime::<chrono::Utc>::from_timestamp(secs, nanos)?;
    let span = std::time::Duration::new(span_secs, span_nanos);
    let end = start.checked_sub_signed(chrono::TimeDelta::from_std(span).ok()?)?;
    Some((end.timestamp(), end.timestamp_subsec_nanos()))
}

} // verus!
