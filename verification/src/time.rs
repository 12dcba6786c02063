//! Spans of monotonic time with nanosecond resolution and saturating arithmetic.
use vstd::prelude::*;

verus! {

pub const NANOS_PER_SEC: u32 = 1_000_000_000;

/// Whole seconds and the nanoseconds beyond them; the nanoseconds stay below one second, so each
/// span has exactly one representation.
#[derive(Clone, Copy, Debug, PartialEq, Eq, Structural)]
pub struct Duration {
    secs: u64,
    nanos: u32,
}

/// The longest representable span, in nanoseconds.
pub open spec fn max_nanos() -> int {
    u64::MAX * 1_000_000_000 + 999_999_999
}

impl Duration {
    #[verifier::type_invariant]
    closed spec fn inv(self) -> bool {
        self.nanos < NANOS_PER_SEC
    }

    /// The span in nanoseconds.
    pub closed spec fn total(self) -> int {
        self.secs * 1_000_000_000 + self.nanos
    }

    /// Every span is at most `max_nanos()` long; this makes that known where it is called.
    pub(crate) fn known_in_range(&self)
        ensures
            0 <= self.total() <= max_nanos(),
    {
        proof {
            use_type_invariant(self);
        }
    }

    /// The empty span.
    pub fn zero() -> (span: Self)
        ensures
            span.total() == 0,
    {
        Duration { secs: 0, nanos: 0 }
    }

    /// The longest span.
    pub fn max() -> (span: Self)
        ensures
            span.total() == max_nanos(),
    {
        Duration { secs: u64::MAX, nanos: NANOS_PER_SEC - 1 }
    }

    /// `secs` seconds and `nanos` nanoseconds; `None` when `nanos` is a second or more.
    pub fn from_parts(secs: u64, nanos: u32) -> (span: Option<Self>)
        ensures
            nanos < NANOS_PER_SEC ==> (span matches Some(s) && s.total() == secs * 1_000_000_000
                + nanos),
            nanos >= NANOS_PER_SEC ==> span is None,
    {
        if nanos < NANOS_PER_SEC {
            Some(Duration { secs, nanos })
        } else {
            None
        }
    }

    /// A span of `millis` milliseconds.
    pub fn from_millis(millis: u64) -> (span: Self)
        ensures
            span.total() == millis * 1_000_000,
    {
        let secs = millis / 1000;
        let rest = millis % 1000;
        proof {
            vstd::arithmetic::div_mod::lemma_fundamental_div_mod(millis as int, 1000);
        }
        Duration { secs, nanos: (rest * 1_000_000) as u32 }
    }

    /// The whole seconds of the span.
    pub fn as_secs(self) -> (secs: u64)
        ensures
            secs == self.total() / 1_000_000_000,
    {
        proof {
            use_type_invariant(self);
            vstd::arithmetic::div_mod::lemma_fundamental_div_mod_converse_div(
                self.total(),
                1_000_000_000,
                self.secs as int,
                self.nanos as int,
            );
        }
        self.secs
    }

    /// The nanoseconds beyond the whole seconds.
    pub fn subsec_nanos(self) -> (nanos: u32)
        ensures
            nanos == self.total() % 1_000_000_000,
    {
        proof {
            use_type_invariant(self);
            vstd::arithmetic::div_mod::lemma_fundamental_div_mod_converse_mod(
                self.total(),
                1_000_000_000,
                self.secs as int,
                self.nanos as int,
            );
        }
        self.nanos
    }

    /// The span in nanoseconds; `None` when that does not fit in 64 bits.
    pub fn as_nanos(self) -> (nanos: Option<u64>)
        ensures
            self.total() <= u64::MAX ==> nanos == Some(self.total() as u64),
            self.total() > u64::MAX ==> nanos is None,
    {
        proof {
            use_type_invariant(self);
        }
        if self.secs > 18_446_744_073 {
            return None;
        }
        let whole = self.secs * 1_000_000_000;
        whole.checked_add(self.nanos as u64)
    }

    pub fn is_zero(self) -> (zero: bool)
        ensures
            zero == (self.total() == 0),
    {
        proof {
            use_type_invariant(self);
        }
        self.secs == 0 && self.nanos == 0
    }

    /// Whether the span is no longer than `other`.
    pub fn le(self, other: Self) -> (result: bool)
        ensures
            result == (self.total() <= other.total()),
    {
        proof {
            use_type_invariant(self);
            use_type_invariant(other);
        }
        self.secs < other.secs || (self.secs == other.secs && self.nanos <= other.nanos)
    }

    /// The sum of both spans, or the longest span when the sum does not fit.
    pub fn saturating_add(self, other: Self) -> (sum: Self)
        ensures
            sum.total() == if self.total() + other.total() <= max_nanos() {
                self.total() + other.total()
            } else {
                max_nanos()
            },
    {
        proof {
            use_type_invariant(self);
            use_type_invariant(other);
        }
        let secs = match self.secs.checked_add(other.secs) {
            Some(secs) => secs,
            None => return Self::max(),
        };
        let nanos = self.nanos + other.nanos;
        if nanos >= NANOS_PER_SEC {
            match secs.checked_add(1) {
                Some(secs) => Duration { secs, nanos: nanos - NANOS_PER_SEC },
                None => Self::max(),
            }
        } else {
            Duration { secs, nanos }
        }
    }

    /// `self` less `other`, or the empty span when `other` is longer.
    pub fn saturating_sub(self, other: Self) -> (difference: Self)
        ensures
            difference.total() == if self.total() >= other.total() {
                self.total() - other.total()
            } else {
                0
            },
    {
        proof {
            use_type_invariant(self);
            use_type_invariant(other);
        }
        if self.secs < other.secs {
            return Self::zero();
        }
        let secs = self.secs - other.secs;
        if self.nanos >= other.nanos {
            Duration { secs, nanos: self.nanos - other.nanos }
        } else if secs == 0 {
            Self::zero()
        } else {
            Duration { secs: secs - 1, nanos: self.nanos + NANOS_PER_SEC - other.nanos }
        }
    }
}

} // verus!
