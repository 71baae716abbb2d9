use vstd::prelude::*;

verus! {

/// The largest span a `std::time::Duration` can hold, in nanoseconds
/// (`u64::MAX` seconds plus 999_999_999 nanoseconds).
pub const MAX_NANOS: u128 = 18_446_744_073_709_551_615_999_999_999u128;

/// Nanoseconds in one second.
pub const NANOS_PER_SEC: u128 = 1_000_000_000u128;

/// A non-negative span of time, held as a whole number of nanoseconds.
/// It covers exactly the values of `std::time::Duration`.
#[derive(Clone, Copy, Debug, PartialEq, Eq, Structural)]
pub struct Interval {
    nanos: u128,
}

impl Interval {
    #[verifier::type_invariant]
    spec fn fits(self) -> bool {
        self.nanos <= MAX_NANOS
    }

    /// The span in nanoseconds.
    pub closed spec fn spec_nanos(self) -> nat {
        self.nanos as nat
    }

    /// A span of whole seconds.
    pub fn from_secs(secs: u64) -> (r: Interval)
        ensures
            r.spec_nanos() == secs * NANOS_PER_SEC,
    {
        assert(secs * NANOS_PER_SEC <= MAX_NANOS) by (nonlinear_arith)
            requires
                secs <= u64::MAX,
        ;
        Interval { nanos: secs as u128 * NANOS_PER_SEC }
    }

    /// A span of `secs` seconds and `subsec_nanos` nanoseconds, the two
    /// parts of a `Duration`.
    pub fn from_parts(secs: u64, subsec_nanos: u32) -> (r: Interval)
        requires
            subsec_nanos < NANOS_PER_SEC,
        ensures
            r.spec_nanos() == secs * NANOS_PER_SEC + subsec_nanos,
    {
        assert(secs * NANOS_PER_SEC + subsec_nanos <= MAX_NANOS) by (nonlinear_arith)
            requires
                secs <= u64::MAX,
                subsec_nanos < NANOS_PER_SEC,
        ;
        Interval { nanos: secs as u128 * NANOS_PER_SEC + subsec_nanos as u128 }
    }

    /// The whole seconds of the span.
    pub fn as_secs(&self) -> (r: u64)
        ensures
            r == self.spec_nanos() / NANOS_PER_SEC as nat,
    {
        proof {
            use_type_invariant(self);
        }
        (self.nanos / NANOS_PER_SEC) as u64
    }

    /// The nanoseconds beyond the whole seconds of the span.
    pub fn subsec_nanos(&self) -> (r: u32)
        ensures
            r == self.spec_nanos() % NANOS_PER_SEC as nat,
    {
        (self.nanos % NANOS_PER_SEC) as u32
    }

    /// Whether the span is empty.
    pub fn is_zero(&self) -> (r: bool)
        ensures
            r == (self.spec_nanos() == 0),
    {
        self.nanos == 0
    }

    /// Whether `self` is shorter than `other`.
    pub fn lt(&self, other: &Interval) -> (r: bool)
        ensures
            r == (self.spec_nanos() < other.spec_nanos()),
    {
        self.nanos < other.nanos
    }

    /// Whether the two spans are equal.
    pub fn same(&self, other: &Interval) -> (r: bool)
        ensures
            r == (self.spec_nanos() == other.spec_nanos()),
    {
        self.nanos == other.nanos
    }

    /// The shorter of the two spans.
    pub fn min(self, other: Interval) -> (r: Interval)
        ensures
            self.spec_nanos() <= MAX_NANOS,
            other.spec_nanos() <= MAX_NANOS,
            r.spec_nanos() == if self.spec_nanos() <= other.spec_nanos() {
                self.spec_nanos()
            } else {
                other.spec_nanos()
            },
    {
        proof {
            use_type_invariant(self);
            use_type_invariant(other);
        }
        if self.nanos <= other.nanos {
            self
        } else {
            other
        }
    }

    /// The sum of the two spans, or `None` where it exceeds what a
    /// `Duration` can hold.
    pub fn checked_add(self, other: Interval) -> (r: Option<Interval>)
        ensures
            match r {
                Some(sum) => sum.spec_nanos() == self.spec_nanos() + other.spec_nanos(),
                None => self.spec_nanos() + other.spec_nanos() > MAX_NANOS,
            },
    {
        proof {
            use_type_invariant(self);
            use_type_invariant(other);
        }
        if self.nanos > MAX_NANOS - other.nanos {
            None
        } else {
            Some(Interval { nanos: self.nanos + other.nanos })
        }
    }
}

} // verus!
