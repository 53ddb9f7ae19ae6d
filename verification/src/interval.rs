//! The interval domain: inclusive `[start, end]` pairs over the signed
//! 128-bit domain, with the validity (non-emptiness) and membership
//! predicates that every bounded integer instantiation relies on.

use vstd::prelude::*;

verus! {

/// An inclusive interval over `i128`.  An interval with `start > end` is
/// empty; every place that instantiates a bounded integer requires a
/// non-empty interval, so emptiness is rejected at verification time.
#[derive(Clone, Copy, Debug, PartialEq, Eq, Structural)]
pub struct Interval {
    pub start: i128,
    pub end: i128,
}

impl Interval {
    /// True iff the interval holds no value at all.
    pub open spec fn spec_is_empty(self) -> bool {
        self.start > self.end
    }

    /// True iff `v` lies inside the interval.
    pub open spec fn spec_contains(self, v: int) -> bool {
        self.start <= v <= self.end
    }

    /// The number of offsets the interval spans: `end - start`.
    /// Non-negative exactly when the interval is non-empty.
    pub open spec fn spec_size(self) -> int {
        self.end - self.start
    }

    /// True iff every value of `inner` also lies in `self`.
    pub open spec fn spec_contains_interval(self, inner: Interval) -> bool {
        self.spec_contains(inner.start as int) && self.spec_contains(inner.end as int)
    }

    pub fn new(start: i128, end: i128) -> (r: Interval)
        ensures
            r.start == start,
            r.end == end,
    {
        Interval { start, end }
    }

    pub fn is_empty(&self) -> (r: bool)
        ensures
            r == self.spec_is_empty(),
    {
        self.start > self.end
    }

    pub fn contains(&self, v: i128) -> (r: bool)
        ensures
            r == self.spec_contains(v as int),
    {
        self.start <= v && v <= self.end
    }

    pub fn contains_interval(&self, inner: &Interval) -> (r: bool)
        ensures
            r == self.spec_contains_interval(*inner),
    {
        self.contains(inner.start) && self.contains(inner.end)
    }
}

/// The unsigned difference `hi - lo`, exact over the whole `i128` domain
/// (the difference may exceed `i128::MAX`, but always fits in `u128`).
pub fn sub_to_u128(hi: i128, lo: i128) -> (r: u128)
    requires
        lo <= hi,
    ensures
        r as int == hi - lo,
{
    if lo >= 0 {
        (hi - lo) as u128
    } else if hi < 0 {
        (hi - lo) as u128
    } else {
        let neg_lo: u128 = ((-(lo + 1)) as u128) + 1;
        (hi as u128) + neg_lo
    }
}

} // verus!
