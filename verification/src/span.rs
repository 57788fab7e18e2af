//! Lengths of time, counted in nanoseconds.
use vstd::prelude::*;

verus! {

/// Nanoseconds in a millisecond.
pub const NANOS_PER_MILLI: u128 = 1_000_000;

/// Nanoseconds in a second.
pub const NANOS_PER_SEC: u128 = 1_000_000_000;

/// A length of time with nanosecond resolution.
///
/// It serves both as the accuracy of a comparison and, counted from the Unix
/// epoch, as the moment at which a file was last modified.  Its view is the
/// number of nanoseconds.
#[derive(Clone, Copy, Debug, PartialEq, Eq, Structural)]
pub struct Span {
    nanos: u128,
}

impl View for Span {
    type V = nat;

    closed spec fn view(&self) -> nat {
        self.nanos as nat
    }
}

impl Span {
    /// The span of `nanos` nanoseconds.
    pub fn from_nanos(nanos: u128) -> (span: Span)
        ensures
            span@ == nanos,
    {
        Span { nanos }
    }

    /// The span of `millis` milliseconds.
    pub fn from_millis(millis: u64) -> (span: Span)
        ensures
            span@ == millis * NANOS_PER_MILLI,
    {
        let wide: u128 = millis as u128;
        assert(wide * NANOS_PER_MILLI <= u64::MAX * NANOS_PER_MILLI) by (nonlinear_arith)
            requires
                wide <= u64::MAX,
        ;
        Span { nanos: wide * NANOS_PER_MILLI }
    }

    /// The span of `secs` whole seconds and `subsec_nanos` further
    /// nanoseconds.
    pub fn new(secs: u64, subsec_nanos: u32) -> (span: Span)
        ensures
            span@ == secs * NANOS_PER_SEC + subsec_nanos,
    {
        let wide: u128 = secs as u128;
        assert(wide * NANOS_PER_SEC <= u64::MAX * NANOS_PER_SEC) by (nonlinear_arith)
            requires
                wide <= u64::MAX,
        ;
        Span { nanos: wide * NANOS_PER_SEC + (subsec_nanos as u128) }
    }

    /// The number of nanoseconds in the span.
    pub fn as_nanos(&self) -> (nanos: u128)
        ensures
            nanos == self@,
    {
        self.nanos
    }

    /// Whether `self` is strictly longer than `other` and `accuracy`
    /// together.
    pub fn exceeds(&self, other: &Span, accuracy: &Span) -> (longer: bool)
        ensures
            longer == (self@ > other@ && self@ - accuracy@ > other@),
    {
        self.nanos > other.nanos && self.nanos - other.nanos > accuracy.nanos
    }
}

} // verus!
