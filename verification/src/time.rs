//! Spans of time as plain integers.

use vstd::prelude::*;

verus! {

/// Nanoseconds in one second.
pub const NANOS_PER_SEC: u128 = 1_000_000_000;

/// Nanoseconds in one millisecond.
pub const NANOS_PER_MILLI: u128 = 1_000_000;

/// A nonnegative span of time with nanosecond resolution.
#[derive(Clone, Copy, Debug, PartialEq, Eq, Structural)]
pub struct Span {
    /// Length of the span in nanoseconds.
    pub nanos: u128,
}

impl Span {
    /// The span of `secs` whole seconds.
    pub fn from_secs(secs: u64) -> (span: Span)
        ensures
            span.nanos == secs * NANOS_PER_SEC,
    {
        assert(secs * NANOS_PER_SEC <= u128::MAX) by (nonlinear_arith)
            requires
                secs <= u64::MAX,
        ;
        Span { nanos: secs as u128 * NANOS_PER_SEC }
    }

    /// The span of `millis` whole milliseconds.
    pub fn from_millis(millis: u64) -> (span: Span)
        ensures
            span.nanos == millis * NANOS_PER_MILLI,
    {
        assert(millis * NANOS_PER_MILLI <= u128::MAX) by (nonlinear_arith)
            requires
                millis <= u64::MAX,
        ;
        Span { nanos: millis as u128 * NANOS_PER_MILLI }
    }

    /// Whether the span is empty.
    pub fn is_zero(&self) -> (zero: bool)
        ensures
            zero == (self.nanos == 0),
    {
        self.nanos == 0
    }
}

/// A thousand milliseconds are a second, a second is a milliard of nanoseconds,
/// and only the empty span is zero.
pub proof fn law_units_of_time_agree(secs: u64, millis: u64, a: Span, b: Span, zero: bool)
    requires
        call_ensures(Span::from_secs, (secs,), a),
        call_ensures(Span::from_millis, (millis,), b),
        call_ensures(Span::is_zero, (&a,), zero),
    ensures
        millis == 1000 * secs ==> a == b,
        a.nanos == secs * 1_000_000_000,
        zero <==> secs == 0,
{
}

} // verus!
