//! A span of time, as seconds and nanoseconds.
use vstd::prelude::*;

verus! {

/// Nanoseconds in one second.
pub const NANOS_PER_SEC: u32 = 1_000_000_000;

/// A span of time: whole seconds plus a sub-second part in nanoseconds,
/// the sub-second part always below one second.
#[derive(Clone, Copy, Debug, PartialEq, Eq, Structural)]
pub struct Duration {
    secs: u64,
    nanos: u32,
}

impl DeepView for Duration {
    type V = Duration;

    open spec fn deep_view(&self) -> Duration {
        *self
    }
}

impl Duration {
    #[verifier::type_invariant]
    spec fn well_formed(self) -> bool {
        self.nanos < NANOS_PER_SEC
    }

    /// Whole seconds.
    pub closed spec fn secs_of(self) -> u64 {
        self.secs
    }

    /// The sub-second part, in nanoseconds.
    pub closed spec fn nanos_of(self) -> u32 {
        self.nanos
    }

    /// The whole span in nanoseconds.
    pub open spec fn total(self) -> int {
        self.secs_of() * NANOS_PER_SEC + self.nanos_of()
    }

    /// Two durations with the same parts are equal.
    pub proof fn lemma_equal(self, other: Duration)
        requires
            self.secs_of() == other.secs_of(),
            self.nanos_of() == other.nanos_of(),
        ensures
            self == other,
    {
    }

    /// The empty span, as a value.
    pub closed spec fn empty() -> Duration {
        Duration { secs: 0, nanos: 0 }
    }

    /// `self - other`, or the empty span when `other` is longer.
    pub closed spec fn minus(self, other: Duration) -> Duration {
        if self.secs < other.secs || (self.secs == other.secs && self.nanos < other.nanos) {
            Duration { secs: 0, nanos: 0 }
        } else if self.nanos >= other.nanos {
            Duration { secs: (self.secs - other.secs) as u64, nanos: (self.nanos - other.nanos) as u32 }
        } else {
            Duration {
                secs: (self.secs - other.secs - 1) as u64,
                nanos: (self.nanos + NANOS_PER_SEC - other.nanos) as u32,
            }
        }
    }

    /// The span of `secs` seconds and `nanos` nanoseconds, the nanoseconds
    /// beyond a second carried into the seconds.
    pub closed spec fn from_parts(secs: u64, nanos: u32) -> Duration {
        Duration {
            secs: (secs + nanos / NANOS_PER_SEC) as u64,
            nanos: (nanos % NANOS_PER_SEC) as u32,
        }
    }

    /// A duration is rebuilt from its parts.
    pub proof fn lemma_from_parts(self)
        requires
            self.nanos_of() < NANOS_PER_SEC,
        ensures
            Duration::from_parts(self.secs_of(), self.nanos_of()) == self,
    {
    }

    /// The parts of the empty span.
    pub proof fn lemma_empty()
        ensures
            Duration::empty().secs_of() == 0,
            Duration::empty().nanos_of() == 0,
    {
    }

    /// The empty span.
    pub fn zero() -> (d: Duration)
        ensures
            d == Duration::empty(),
            d.secs_of() == 0,
            d.nanos_of() == 0,
    {
        Duration { secs: 0, nanos: 0 }
    }

    /// The span of `secs` seconds and `nanos` nanoseconds; nanoseconds beyond
    /// a second carry into the seconds (`Duration::new`).
    pub fn new(secs: u64, nanos: u32) -> (d: Duration)
        requires
            secs + nanos / NANOS_PER_SEC <= u64::MAX,
        ensures
            d == Duration::from_parts(secs, nanos),
            d.secs_of() == secs + nanos / NANOS_PER_SEC,
            d.nanos_of() == nanos % NANOS_PER_SEC,
    {
        Duration { secs: secs + (nanos / NANOS_PER_SEC) as u64, nanos: nanos % NANOS_PER_SEC }
    }

    /// Whole seconds (`Duration::as_secs`).
    pub fn as_secs(&self) -> (s: u64)
        ensures
            s == self.secs_of(),
    {
        self.secs
    }

    /// The sub-second part in nanoseconds (`Duration::subsec_nanos`).
    pub fn subsec_nanos(&self) -> (n: u32)
        ensures
            n == self.nanos_of(),
            n < NANOS_PER_SEC,
    {
        proof {
            use_type_invariant(self);
        }
        self.nanos
    }

    /// `self - other`, or the empty span when `other` is longer (`Duration::saturating_sub`).
    pub fn saturating_sub(&self, other: &Duration) -> (d: Duration)
        ensures
            d == self.minus(*other),
            d.total() == if self.total() >= other.total() {
                self.total() - other.total()
            } else {
                0
            },
    {
        proof {
            use_type_invariant(self);
            use_type_invariant(other);
        }
        if self.secs < other.secs || (self.secs == other.secs && self.nanos < other.nanos) {
            assert(self.total() < other.total()) by (nonlinear_arith)
                requires
                    self.secs < other.secs || (self.secs == other.secs && self.nanos
                        < other.nanos),
                    self.nanos < NANOS_PER_SEC,
                    other.nanos < NANOS_PER_SEC,
                    self.total() == self.secs * NANOS_PER_SEC + self.nanos,
                    other.total() == other.secs * NANOS_PER_SEC + other.nanos,
            ;
            return Duration { secs: 0, nanos: 0 };
        }
        if self.nanos >= other.nanos {
            Duration { secs: self.secs - other.secs, nanos: self.nanos - other.nanos }
        } else {
            let d = Duration {
                secs: self.secs - other.secs - 1,
                nanos: self.nanos + NANOS_PER_SEC - other.nanos,
            };
            assert(d.total() == self.total() - other.total()) by (nonlinear_arith)
                requires
                    d.secs == self.secs - other.secs - 1,
                    d.nanos == self.nanos + NANOS_PER_SEC - other.nanos,
                    d.total() == d.secs * NANOS_PER_SEC + d.nanos,
                    self.total() == self.secs * NANOS_PER_SEC + self.nanos,
                    other.total() == other.secs * NANOS_PER_SEC + other.nanos,
            ;
            d
        }
    }
}

} // verus!
