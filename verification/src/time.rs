//! Spans of time in whole nanoseconds.

use vstd::prelude::*;

verus! {

/// Nanoseconds in one millisecond.
pub const NANOS_PER_MILLI: u64 = 1_000_000;

/// Nanoseconds in one second.
pub const NANOS_PER_SEC: u64 = 1_000_000_000;

/// A length of time, counted in nanoseconds. The largest span is a little
/// over 584 years; constructors and sums saturate there.
#[derive(Clone, Copy, Debug, PartialEq, Eq, Structural, Hash)]
pub struct Span {
    pub nanos: u64,
}

impl View for Span {
    type V = nat;

    open spec fn view(&self) -> nat {
        self.nanos as nat
    }
}

/// The smaller of `a` and the largest value a span can hold.
pub open spec fn saturate(a: int) -> nat {
    if a < 0 {
        0
    } else if a > u64::MAX {
        u64::MAX as nat
    } else {
        a as nat
    }
}

impl Span {
    /// The empty span.
    pub fn zero() -> (s: Span)
        ensures
            s@ == 0,
    {
        Span { nanos: 0 }
    }

    /// A span of `nanos` nanoseconds.
    pub fn from_nanos(nanos: u64) -> (s: Span)
        ensures
            s@ == nanos,
    {
        Span { nanos }
    }

    /// A span of `millis` milliseconds, saturating.
    pub fn from_millis(millis: u64) -> (s: Span)
        ensures
            s@ == saturate(millis * NANOS_PER_MILLI),
    {
        if millis > u64::MAX / NANOS_PER_MILLI {
            Span { nanos: u64::MAX }
        } else {
            Span { nanos: millis * NANOS_PER_MILLI }
        }
    }

    /// A span of `secs` seconds, saturating.
    pub fn from_secs(secs: u64) -> (s: Span)
        ensures
            s@ == saturate(secs * NANOS_PER_SEC),
    {
        if secs > u64::MAX / NANOS_PER_SEC {
            Span { nanos: u64::MAX }
        } else {
            Span { nanos: secs * NANOS_PER_SEC }
        }
    }

    /// The span in nanoseconds.
    pub fn as_nanos(&self) -> (n: u64)
        ensures
            n == self@,
    {
        self.nanos
    }

    /// The span in whole milliseconds, rounded down.
    pub fn as_millis(&self) -> (n: u64)
        ensures
            n == self@ / (NANOS_PER_MILLI as nat),
    {
        self.nanos / NANOS_PER_MILLI
    }

    /// The span in whole seconds, rounded down.
    pub fn as_secs(&self) -> (n: u64)
        ensures
            n == self@ / (NANOS_PER_SEC as nat),
    {
        self.nanos / NANOS_PER_SEC
    }

    /// The sum of two spans, saturating.
    pub fn saturating_add(&self, other: Span) -> (s: Span)
        ensures
            s@ == saturate((self@ + other@) as int),
    {
        Span { nanos: self.nanos.saturating_add(other.nanos) }
    }

    /// What is left of this span once `other` has passed; zero if nothing.
    pub fn saturating_sub(&self, other: Span) -> (s: Span)
        ensures
            s@ == saturate(self@ - other@),
    {
        Span { nanos: self.nanos.saturating_sub(other.nanos) }
    }

    /// Whether this span is at least as long as `other`.
    pub fn at_least(&self, other: Span) -> (b: bool)
        ensures
            b == (self@ >= other@),
    {
        self.nanos >= other.nanos
    }
}

} // verus!
