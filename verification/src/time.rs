//! Spans of time.

use vstd::prelude::*;

verus! {

/// Nanoseconds in the longest span.
pub const MAX_NANOS: u128 = 18_446_744_073_709_551_615_999_999_999;

/// Longest timeout that is accepted: one day, in nanoseconds.
pub const MAX_TIMEOUT_NANOS: u128 = 86_400_000_000_000;

/// A span of time, to the nanosecond.
#[derive(Clone, Copy, Debug, PartialEq, Eq, Structural)]
pub struct Duration {
    nanos: u128,
}

impl View for Duration {
    type V = nat;

    /// The number of nanoseconds.
    closed spec fn view(&self) -> nat {
        self.nanos as nat
    }
}

impl Duration {
    #[verifier::type_invariant]
    spec fn bounded(self) -> bool {
        self.nanos <= MAX_NANOS
    }

    /// The span of `secs` seconds and `nanos` nanoseconds; the longest span
    /// where that is not one.
    pub fn new(secs: u64, nanos: u32) -> (span: Duration)
        ensures
            span@ == if secs * 1_000_000_000 + nanos <= MAX_NANOS {
                (secs * 1_000_000_000 + nanos) as nat
            } else {
                MAX_NANOS as nat
            },
    {
        let total: u128 = secs as u128 * 1_000_000_000 + nanos as u128;
        Duration {
            nanos: if total <= MAX_NANOS {
                total
            } else {
                MAX_NANOS
            },
        }
    }

    pub fn from_secs(secs: u64) -> (span: Duration)
        ensures
            span@ == secs * 1_000_000_000,
    {
        Duration { nanos: secs as u128 * 1_000_000_000 }
    }

    pub fn from_millis(millis: u64) -> (span: Duration)
        ensures
            span@ == millis * 1_000_000,
    {
        Duration { nanos: millis as u128 * 1_000_000 }
    }

    /// The whole seconds of the span.
    pub fn as_secs(&self) -> (secs: u64)
        ensures
            secs == self@ / 1_000_000_000,
    {
        proof {
            use_type_invariant(self);
        }
        (self.nanos / 1_000_000_000) as u64
    }

    /// What the whole seconds leave.
    pub fn subsec_nanos(&self) -> (nanos: u32)
        ensures
            nanos == self@ % 1_000_000_000,
    {
        (self.nanos % 1_000_000_000) as u32
    }

    pub fn is_zero(&self) -> (zero: bool)
        ensures
            zero == (self@ == 0),
    {
        self.nanos == 0
    }

    pub fn at_least(&self, other: Duration) -> (result: bool)
        ensures
            result == (self@ >= other@),
    {
        self.nanos >= other.nanos
    }

    /// What is left of the span when `other` has passed.
    pub fn saturating_sub(&self, other: Duration) -> (rest: Duration)
        ensures
            rest@ == if other@ <= self@ {
                (self@ - other@) as nat
            } else {
                0
            },
    {
        proof {
            use_type_invariant(self);
        }
        Duration {
            nanos: if other.nanos <= self.nanos {
                self.nanos - other.nanos
            } else {
                0
            },
        }
    }

    /// The shorter of two spans.
    pub fn shorter(&self, other: Duration) -> (span: Duration)
        ensures
            span@ == if self@ <= other@ {
                self@
            } else {
                other@
            },
    {
        if self.nanos <= other.nanos {
            *self
        } else {
            other
        }
    }

    /// The third part of the span.
    pub fn third(&self) -> (span: Duration)
        ensures
            span@ == self@ / 3,
    {
        proof {
            use_type_invariant(self);
        }
        Duration { nanos: self.nanos / 3 }
    }

    /// The span as a text such as `1.5s` or `100ms`.
    pub fn text(&self) -> (text: String)
        ensures
            text@ == self.described(),
    {
        debug_duration(self.as_secs(), self.subsec_nanos())
    }

    /// The span as a text such as `1.5s` or `100ms`.
    pub open spec fn described(self) -> Seq<char> {
        duration_debug((self@ / 1_000_000_000) as u64, (self@ % 1_000_000_000) as u32)
    }
}

/// A span that is accepted as a timeout: more than nothing, and at most a day.
pub open spec fn is_timeout(span: Duration) -> bool {
    0 < span@ <= MAX_TIMEOUT_NANOS
}

/// The `Debug` text of a `std::time::Duration`.
pub uninterp spec fn duration_debug(secs: u64, nanos: u32) -> Seq<char>;

/// Formats `std::time::Duration::new(secs, nanos)` with its `Debug`. The text
/// depends on the span alone.
#[verifier::external_body]
fn debug_duration(secs: u64, nanos: u32) -> (text: String)
    requires
        nanos < 1_000_000_000,
    ensures
        text@ == duration_debug(secs, nanos),
{
    format!("{:?}", std::time::Duration::new(secs, nanos))
}

} // verus!
