//! A span of time with nanosecond resolution, held as whole seconds and a
//! sub-second remainder.

use vstd::prelude::*;

verus! {

/// Nanoseconds in one second.
pub const NANOS_PER_SEC: u32 = 1_000_000_000;

/// A non-negative span of time of at most `u64::MAX` seconds and 999,999,999
/// nanoseconds.
#[derive(Clone, Copy, Debug, PartialEq, Eq, Structural)]
pub struct TimeSpan {
    secs: u64,
    nanos: u32,
}

impl TimeSpan {
    /// The sub-second part stays below one second.
    pub closed spec fn wf(self) -> bool {
        self.nanos < NANOS_PER_SEC
    }

    #[verifier::type_invariant]
    spec fn inv(self) -> bool {
        self.wf()
    }

    /// The span as a number of nanoseconds.
    pub closed spec fn as_nanos(self) -> nat {
        self.secs as nat * 1_000_000_000 + self.nanos as nat
    }

    /// The largest number of nanoseconds a span can hold.
    pub open spec fn max_nanos() -> nat {
        u64::MAX as nat * 1_000_000_000 + 999_999_999
    }

    /// The empty span.
    pub fn zero() -> (r: TimeSpan)
        ensures
            r.wf(),
            r.as_nanos() == 0,
    {
        TimeSpan { secs: 0, nanos: 0 }
    }

    /// The longest span; it stands for "no deadline".
    pub fn max() -> (r: TimeSpan)
        ensures
            r.wf(),
            r.as_nanos() == Self::max_nanos(),
    {
        TimeSpan { secs: u64::MAX, nanos: 999_999_999 }
    }

    /// A span of `secs` seconds and `nanos` nanoseconds. Whole seconds in
    /// `nanos` carry over; `None` when the carry does not fit.
    pub fn new(secs: u64, nanos: u32) -> (r: Option<TimeSpan>)
        ensures
            r is Some <==> secs as nat * 1_000_000_000 + nanos as nat <= Self::max_nanos(),
            r matches Some(t) ==> t.wf() && t.as_nanos() == secs as nat * 1_000_000_000
                + nanos as nat,
    {
        let carry: u64 = (nanos / NANOS_PER_SEC) as u64;
        let rest: u32 = nanos % NANOS_PER_SEC;
        if secs > u64::MAX - carry {
            None
        } else {
            Some(TimeSpan { secs: secs + carry, nanos: rest })
        }
    }

    /// A span of whole seconds.
    pub fn from_secs(secs: u64) -> (r: TimeSpan)
        ensures
            r.wf(),
            r.as_nanos() == secs as nat * 1_000_000_000,
    {
        TimeSpan { secs, nanos: 0 }
    }

    /// A span of whole milliseconds.
    pub fn from_millis(millis: u64) -> (r: TimeSpan)
        ensures
            r.wf(),
            r.as_nanos() == millis as nat * 1_000_000,
    {
        let sub: u32 = (millis % 1_000) as u32;
        TimeSpan { secs: millis / 1_000, nanos: sub * 1_000_000 }
    }

    /// A span of whole microseconds.
    pub fn from_micros(micros: u64) -> (r: TimeSpan)
        ensures
            r.wf(),
            r.as_nanos() == micros as nat * 1_000,
    {
        let sub: u32 = (micros % 1_000_000) as u32;
        TimeSpan { secs: micros / 1_000_000, nanos: sub * 1_000 }
    }

    /// The whole seconds of the span.
    pub fn as_secs(&self) -> (r: u64)
        ensures
            r as nat == self.as_nanos() / 1_000_000_000,
    {
        proof {
            use_type_invariant(self);
        }
        self.secs
    }

    /// What is left of the span after its whole seconds, in nanoseconds.
    pub fn subsec_nanos(&self) -> (r: u32)
        ensures
            r as nat == self.as_nanos() % 1_000_000_000,
    {
        proof {
            use_type_invariant(self);
        }
        self.nanos
    }

    /// The span in nanoseconds.
    pub fn total_nanos(&self) -> (r: u128)
        ensures
            r as nat == self.as_nanos(),
    {
        proof {
            use_type_invariant(self);
        }
        (self.secs as u128) * 1_000_000_000 + (self.nanos as u128)
    }

    /// The span in whole microseconds.
    pub fn as_micros(&self) -> (r: u128)
        ensures
            r as nat == self.as_nanos() / 1_000,
    {
        self.total_nanos() / 1_000
    }

    /// The span in whole milliseconds.
    pub fn as_millis(&self) -> (r: u128)
        ensures
            r as nat == self.as_nanos() / 1_000_000,
    {
        self.total_nanos() / 1_000_000
    }

    /// Whether the span is empty.
    pub fn is_zero(&self) -> (r: bool)
        ensures
            r == (self.as_nanos() == 0),
    {
        self.secs == 0 && self.nanos == 0
    }

    /// Whether the span is the longest one.
    pub fn is_max(&self) -> (r: bool)
        ensures
            r == (self.as_nanos() == Self::max_nanos()),
            self.as_nanos() <= Self::max_nanos(),
    {
        proof {
            use_type_invariant(self);
        }
        self.secs == u64::MAX && self.nanos == 999_999_999
    }

    /// Whether this span is strictly shorter than `other`.
    pub fn lt(&self, other: &TimeSpan) -> (r: bool)
        ensures
            r == (self.as_nanos() < other.as_nanos()),
    {
        proof {
            use_type_invariant(self);
            use_type_invariant(other);
        }
        self.secs < other.secs || (self.secs == other.secs && self.nanos < other.nanos)
    }

    /// Whether this span is at least as long as `other`.
    pub fn ge(&self, other: &TimeSpan) -> (r: bool)
        ensures
            r == (self.as_nanos() >= other.as_nanos()),
    {
        !self.lt(other)
    }

    /// Whether this span is strictly longer than `other`.
    pub fn gt(&self, other: &TimeSpan) -> (r: bool)
        ensures
            r == (self.as_nanos() > other.as_nanos()),
    {
        other.lt(self)
    }

    /// Whether this span is at most as long as `other`.
    pub fn le(&self, other: &TimeSpan) -> (r: bool)
        ensures
            r == (self.as_nanos() <= other.as_nanos()),
    {
        !other.lt(self)
    }

    /// The shorter of the two spans.
    pub fn min(self, other: TimeSpan) -> (r: TimeSpan)
        ensures
            r.wf(),
            r == if self.as_nanos() <= other.as_nanos() { self } else { other },
    {
        proof {
            use_type_invariant(self);
            use_type_invariant(other);
        }
        if self.le(&other) {
            self
        } else {
            other
        }
    }

    /// `self - rhs`, or `None` when `rhs` is the longer span.
    pub fn checked_sub(self, rhs: TimeSpan) -> (r: Option<TimeSpan>)
        ensures
            r is Some <==> self.as_nanos() >= rhs.as_nanos(),
            r matches Some(t) ==> t.wf() && t.as_nanos() == self.as_nanos() - rhs.as_nanos(),
    {
        proof {
            use_type_invariant(self);
            use_type_invariant(rhs);
        }
        if self.lt(&rhs) {
            None
        } else if self.nanos >= rhs.nanos {
            Some(TimeSpan { secs: self.secs - rhs.secs, nanos: self.nanos - rhs.nanos })
        } else {
            Some(
                TimeSpan {
                    secs: self.secs - rhs.secs - 1,
                    nanos: self.nanos + NANOS_PER_SEC - rhs.nanos,
                },
            )
        }
    }

    /// `self - rhs`, or the empty span when `rhs` is the longer one.
    pub fn saturating_sub(self, rhs: TimeSpan) -> (r: TimeSpan)
        ensures
            r.wf(),
            r.as_nanos() == if self.as_nanos() >= rhs.as_nanos() {
                self.as_nanos() - rhs.as_nanos()
            } else {
                0
            },
    {
        match self.checked_sub(rhs) {
            Some(t) => t,
            None => TimeSpan::zero(),
        }
    }

    /// `self + rhs`, or `None` when the sum is longer than the longest span.
    pub fn checked_add(self, rhs: TimeSpan) -> (r: Option<TimeSpan>)
        ensures
            r is Some <==> self.as_nanos() + rhs.as_nanos() <= Self::max_nanos(),
            r matches Some(t) ==> t.wf() && t.as_nanos() == self.as_nanos() + rhs.as_nanos(),
    {
        proof {
            use_type_invariant(self);
            use_type_invariant(rhs);
        }
        let sum: u32 = self.nanos + rhs.nanos;
        let carry: u64 = if sum >= NANOS_PER_SEC { 1 } else { 0 };
        let rest: u32 = if sum >= NANOS_PER_SEC { sum - NANOS_PER_SEC } else { sum };
        if self.secs > u64::MAX - rhs.secs {
            None
        } else if self.secs + rhs.secs > u64::MAX - carry {
            None
        } else {
            Some(TimeSpan { secs: self.secs + rhs.secs + carry, nanos: rest })
        }
    }
}

/// Two well-formed spans of the same length are the same value.
pub proof fn lemma_equal_length_equal_span(a: TimeSpan, b: TimeSpan)
    requires
        a.wf(),
        b.wf(),
        a.as_nanos() == b.as_nanos(),
    ensures
        a == b,
{
}

} // verus!
