//! Lengths of time and moments on the monotonic clock, in nanoseconds.

use vstd::prelude::*;

verus! {

/// The longest span: as many whole seconds as fit in 64 bits, and just under one more.
pub const LONGEST_SPAN_NANOS: u128 = 18446744073709551615999999999;

/// A length of time. A moment is the span since the clock started.
#[derive(Clone, Copy, Debug, PartialEq, Eq, Structural)]
pub struct Span {
    nanos: u128,
}

impl View for Span {
    type V = nat;

    closed spec fn view(&self) -> nat {
        self.nanos as nat
    }
}

impl Span {
    #[verifier::type_invariant]
    spec fn bounded(self) -> bool {
        self.nanos <= LONGEST_SPAN_NANOS
    }

    /// No time at all.
    pub fn zero() -> (span: Span)
        ensures
            span@ == 0,
    {
        Span { nanos: 0 }
    }

    /// A span of `nanos` nanoseconds.
    pub fn from_nanos(nanos: u128) -> (span: Span)
        requires
            nanos <= LONGEST_SPAN_NANOS,
        ensures
            span@ == nanos,
    {
        Span { nanos }
    }

    /// A span of `millis` milliseconds.
    pub fn from_millis(millis: u64) -> (span: Span)
        ensures
            span@ == millis * 1_000_000,
    {
        Span { nanos: millis as u128 * 1_000_000 }
    }

    /// A span of `secs` seconds.
    pub fn from_secs(secs: u64) -> (span: Span)
        ensures
            span@ == secs * 1_000_000_000,
    {
        Span { nanos: secs as u128 * 1_000_000_000 }
    }

    /// The span in nanoseconds.
    pub fn as_nanos(&self) -> (nanos: u128)
        ensures
            nanos == self@,
            nanos <= LONGEST_SPAN_NANOS,
    {
        proof {
            use_type_invariant(self);
        }
        self.nanos
    }

    /// The whole milliseconds in the span.
    pub fn as_millis(&self) -> (millis: u128)
        ensures
            millis == self@ / 1_000_000,
    {
        self.nanos / 1_000_000
    }
}

/// The end of a wait of length `timeout` that starts at `now`.
pub open spec fn deadline_after(now: nat, timeout: nat) -> nat {
    now + timeout
}

/// A moment at which a wait ends. It may lie beyond every moment the clock can report.
#[derive(Clone, Copy, Debug, PartialEq, Eq, Structural)]
pub struct Deadline {
    nanos: u128,
}

impl View for Deadline {
    type V = nat;

    closed spec fn view(&self) -> nat {
        self.nanos as nat
    }
}

impl Deadline {
    /// The deadline of a wait of length `timeout` that starts at `now`.
    pub fn after(now: Span, timeout: Span) -> (deadline: Deadline)
        ensures
            deadline@ == deadline_after(now@, timeout@),
    {
        let start = now.as_nanos();
        let length = timeout.as_nanos();
        Deadline { nanos: start + length }
    }

    /// Whether the deadline has come at `now`.
    pub fn reached(&self, now: Span) -> (reached: bool)
        ensures
            reached == (now@ >= self@),
    {
        now.as_nanos() >= self.nanos
    }
}

}
