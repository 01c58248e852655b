//! Spans of time.
use vstd::prelude::*;

verus! {

/// The longest span in nanoseconds: `u64::MAX` seconds and 999,999,999 nanoseconds.
pub const MAX_NANOS: u128 = 18_446_744_073_709_551_615_999_999_999;

/// A span of time in nanoseconds, or a time as the span since the Unix epoch.
#[derive(Clone, Copy, Debug, PartialEq, Eq)]
pub struct Duration {
    nanos: u128,
}

impl View for Duration {
    type V = nat;

    closed spec fn view(&self) -> nat {
        self.nanos as nat
    }
}

impl Duration {
    /// A span is never longer than the longest.
    #[verifier::type_invariant]
    pub closed spec fn bounded(self) -> bool {
        self.nanos <= MAX_NANOS
    }

    /// No time at all.
    pub fn zero() -> (span: Duration)
        ensures
            span@ == 0,
    {
        Duration { nanos: 0 }
    }

    /// A span of seconds.
    pub fn from_secs(secs: u64) -> (span: Duration)
        ensures
            span@ == secs * 1_000_000_000,
    {
        Duration { nanos: secs as u128 * 1_000_000_000 }
    }

    /// A span of milliseconds.
    pub fn from_millis(millis: u64) -> (span: Duration)
        ensures
            span@ == millis * 1_000_000,
    {
        Duration { nanos: millis as u128 * 1_000_000 }
    }

    /// A span of seconds and nanoseconds, of which there are less than a second.
    pub fn new(secs: u64, nanos: u32) -> (span: Duration)
        requires
            nanos < 1_000_000_000,
        ensures
            span@ == secs * 1_000_000_000 + nanos,
    {
        Duration { nanos: secs as u128 * 1_000_000_000 + nanos as u128 }
    }

    /// The whole seconds in the span.
    pub fn as_secs(&self) -> (secs: u64)
        ensures
            secs == self@ / 1_000_000_000,
    {
        proof {
            use_type_invariant(self);
        }
        (self.nanos / 1_000_000_000) as u64
    }

    /// The nanoseconds beyond the whole seconds.
    pub fn subsec_nanos(&self) -> (nanos: u32)
        ensures
            nanos == self@ % 1_000_000_000,
    {
        (self.nanos % 1_000_000_000) as u32
    }

    /// The span a number of times over, up to the longest span.
    pub fn saturating_mul(self, factor: u32) -> (span: Duration)
        ensures
            span@ == capped(self@ * factor as nat),
    {
        proof {
            use_type_invariant(self);
            assert(self.nanos * factor <= MAX_NANOS * u32::MAX) by (nonlinear_arith)
                requires
                    self.nanos <= MAX_NANOS,
                    factor <= u32::MAX,
            ;
            assert(MAX_NANOS * u32::MAX <= u128::MAX);
        }
        let product: u128 = self.nanos * factor as u128;
        if product > MAX_NANOS {
            Duration { nanos: MAX_NANOS }
        } else {
            Duration { nanos: product }
        }
    }

    /// The shorter of two spans.
    pub fn min(self, other: Duration) -> (span: Duration)
        ensures
            span@ == if self@ <= other@ {
                self@
            } else {
                other@
            },
    {
        if self.nanos <= other.nanos {
            self
        } else {
            other
        }
    }

    /// The span from an earlier time to this one, or no time where it is not earlier.
    pub fn since(self, earlier: Duration) -> (span: Duration)
        ensures
            span@ == if self@ >= earlier@ {
                (self@ - earlier@) as nat
            } else {
                0
            },
    {
        proof {
            use_type_invariant(self);
        }
        if self.nanos >= earlier.nanos {
            Duration { nanos: self.nanos - earlier.nanos }
        } else {
            Duration { nanos: 0 }
        }
    }
}

/// A number of nanoseconds, or the longest span where there are too many.
pub open spec fn capped(nanos: nat) -> nat {
    if nanos > MAX_NANOS {
        MAX_NANOS as nat
    } else {
        nanos
    }
}

} // verus!
