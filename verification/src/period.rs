//! Lengths of time.

use vstd::prelude::*;

verus! {

/// A length of time: whole milliseconds, and the nanoseconds beyond them.
#[derive(Debug, Clone, Copy, PartialEq, Eq, Structural)]
pub struct Period {
    pub millis: u128,
    /// Less than a million.
    pub nanos: u32,
}

/// A period of whole milliseconds.
pub open spec fn of_millis(millis: u64) -> Period {
    Period { millis: millis as u128, nanos: 0 }
}

impl Period {
    /// One period is shorter than another.
    pub open spec fn shorter(self, other: Period) -> bool {
        self.millis < other.millis || (self.millis == other.millis && self.nanos < other.nanos)
    }

    pub fn from_millis(millis: u64) -> (period: Self)
        ensures
            period == of_millis(millis),
    {
        Period { millis: millis as u128, nanos: 0 }
    }

    pub fn from_nanos(nanos: u128) -> (period: Self)
        ensures
            period.millis == nanos / 1_000_000,
            period.nanos == nanos % 1_000_000,
    {
        Period { millis: nanos / 1_000_000, nanos: (nanos % 1_000_000) as u32 }
    }

    pub fn is_zero(&self) -> (zero: bool)
        ensures
            zero == (*self == of_millis(0)),
    {
        self.millis == 0 && self.nanos == 0
    }

    pub fn is_shorter(&self, other: &Period) -> (shorter: bool)
        ensures
            shorter == self.shorter(*other),
    {
        self.millis < other.millis || (self.millis == other.millis && self.nanos < other.nanos)
    }

    /// The whole milliseconds, where they can be told.
    pub fn whole_millis(&self) -> (millis: Option<u64>)
        ensures
            millis == if self.millis <= u64::MAX {
                Some(self.millis as u64)
            } else {
                None
            },
    {
        if self.millis <= u64::MAX as u128 {
            Some(self.millis as u64)
        } else {
            None
        }
    }
}

/// Of two periods the one with fewer nanoseconds in all is the shorter one.
pub proof fn law_periods_are_ordered_by_length(left: Period, right: Period)
    requires
        left.nanos < 1_000_000,
        right.nanos < 1_000_000,
    ensures
        left.shorter(right) <==> left.millis * 1_000_000 + left.nanos < right.millis * 1_000_000
            + right.nanos,
{
}

} // verus!
