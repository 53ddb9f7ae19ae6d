//! Range-aware comparison: equality and ordering between bounded
//! integers are resolved at the interval level whenever the intervals
//! alone decide the outcome, and fall back to comparing the stored
//! values only when the intervals overlap.

use vstd::prelude::*;

use core::cmp::Ordering;

use crate::interval::{sub_to_u128, Interval};
use crate::num::Integer;

verus! {

/// Two intervals force equality without looking at storage exactly when
/// both are single-point and share that point.
pub open spec fn spec_must_be_equal(l: Interval, r: Interval) -> bool {
    l.start == l.end && r.start == r.end && l.start == r.start
}

/// The overlap test: two non-empty intervals share a value exactly when
/// one contains an endpoint of the other.
pub open spec fn spec_ranges_overlap(l: Interval, r: Interval) -> bool {
    l.spec_contains(r.start as int) || l.spec_contains(r.end as int) || r.spec_contains(
        l.start as int,
    )
}

/// Whether two intervals overlap; for non-empty intervals this is
/// exactly "some value lies in both".
pub fn ranges_overlap(l: Interval, r: Interval) -> (b: bool)
    ensures
        b == spec_ranges_overlap(l, r),
{
    l.contains(r.start) || l.contains(r.end) || r.contains(l.start)
}

/// Non-overlapping non-empty intervals are disjoint as sets: one lies
/// entirely below the other.
pub proof fn lemma_no_overlap_separates(l: Interval, r: Interval)
    requires
        !l.spec_is_empty(),
        !r.spec_is_empty(),
        !spec_ranges_overlap(l, r),
    ensures
        l.end < r.start || r.end < l.start,
{
}

/// What `==` on bounded integers means: forced equality for identical
/// single-point intervals, forced inequality for non-overlapping
/// intervals, and value comparison otherwise.
pub open spec fn spec_eq(a: Integer, b: Integer) -> bool {
    if spec_must_be_equal(a.interval, b.interval) {
        true
    } else if !spec_ranges_overlap(a.interval, b.interval) {
        false
    } else {
        a.value() == b.value()
    }
}

/// What `partial_cmp` on bounded integers means: value order when the
/// intervals overlap; otherwise the interval whose start is smaller
/// lies entirely below the other.
pub open spec fn spec_cmp(a: Integer, b: Integer) -> Option<Ordering> {
    if spec_ranges_overlap(a.interval, b.interval) {
        if a.value() == b.value() {
            Some(Ordering::Equal)
        } else if a.value() < b.value() {
            Some(Ordering::Less)
        } else {
            Some(Ordering::Greater)
        }
    } else {
        if b.interval.start < a.interval.start {
            Some(Ordering::Greater)
        } else {
            Some(Ordering::Less)
        }
    }
}

/// The value shifted so that the whole signed 128-bit domain becomes
/// non-negative: `start - i128::MIN`, as an exact unsigned magnitude.
fn value_base(x: &Integer) -> (r: u128)
    ensures
        r as int == x.interval.start - i128::MIN,
{
    sub_to_u128(x.interval.start, i128::MIN)
}

/// Whether two bounded integers hold the same logical value, computed
/// without decoding and total even when an offset exceeds its interval.
fn same_value(a: &Integer, b: &Integer) -> (r: bool)
    ensures
        r == (a.value() == b.value()),
{
    let base_a = value_base(a);
    let base_b = value_base(b);
    let off_a = a.repr.to_offset();
    let off_b = b.repr.to_offset();
    if base_a >= base_b {
        match off_a.checked_add(base_a - base_b) {
            Some(s) => s == off_b,
            None => false,
        }
    } else {
        match off_b.checked_add(base_b - base_a) {
            Some(s) => s == off_a,
            None => false,
        }
    }
}

/// Whether `a`'s logical value is strictly below `b`'s, computed in the
/// same total fashion as [`same_value`].
fn value_below(a: &Integer, b: &Integer) -> (r: bool)
    ensures
        r == (a.value() < b.value()),
{
    let base_a = value_base(a);
    let base_b = value_base(b);
    let off_a = a.repr.to_offset();
    let off_b = b.repr.to_offset();
    if base_a >= base_b {
        match off_a.checked_add(base_a - base_b) {
            Some(s) => s < off_b,
            None => false,
        }
    } else {
        match off_b.checked_add(base_b - base_a) {
            Some(s) => off_a < s,
            None => true,
        }
    }
}

impl PartialEq for Integer {
    /// Interval-level equality: identical single-point intervals are
    /// equal with no storage access, non-overlapping intervals are
    /// unequal with no storage access, and only overlapping intervals
    /// compare the stored values.
    fn eq(&self, other: &Integer) -> (r: bool) {
        let se = self.interval_of();
        let oe = other.interval_of();
        if se.start == se.end && oe.start == oe.end && se.start == oe.start {
            true
        } else if !ranges_overlap(se, oe) {
            false
        } else {
            same_value(self, other)
        }
    }
}

impl vstd::std_specs::cmp::PartialEqSpecImpl for Integer {
    open spec fn obeys_eq_spec() -> bool {
        true
    }

    open spec fn eq_spec(&self, other: &Integer) -> bool {
        spec_eq(*self, *other)
    }
}

impl PartialOrd for Integer {
    /// Interval-level ordering: overlapping intervals compare values;
    /// non-overlapping intervals are ordered by which interval lies
    /// below the other, with no storage access.
    fn partial_cmp(&self, other: &Integer) -> (r: Option<Ordering>) {
        let se = self.interval_of();
        let oe = other.interval_of();
        if ranges_overlap(se, oe) {
            if same_value(self, other) {
                Some(Ordering::Equal)
            } else if value_below(self, other) {
                Some(Ordering::Less)
            } else {
                Some(Ordering::Greater)
            }
        } else {
            if oe.start < se.start {
                Some(Ordering::Greater)
            } else {
                Some(Ordering::Less)
            }
        }
    }
}

impl vstd::std_specs::cmp::PartialOrdSpecImpl for Integer {
    open spec fn obeys_partial_cmp_spec() -> bool {
        true
    }

    open spec fn partial_cmp_spec(&self, other: &Integer) -> Option<Ordering> {
        spec_cmp(*self, *other)
    }
}

/// Soundness of `==` on well-formed values: the interval short-circuits
/// agree with comparing the logical values.
pub proof fn lemma_eq_sound(a: Integer, b: Integer)
    requires
        a.wf(),
        b.wf(),
    ensures
        spec_eq(a, b) == (a.value() == b.value()),
{
    if spec_must_be_equal(a.interval, b.interval) {
    } else if !spec_ranges_overlap(a.interval, b.interval) {
        lemma_no_overlap_separates(a.interval, b.interval);
    }
}

/// Soundness of the ordering on well-formed values: the result is
/// exactly the order of the logical values.
pub proof fn lemma_cmp_sound(a: Integer, b: Integer)
    requires
        a.wf(),
        b.wf(),
    ensures
        spec_cmp(a, b) == Some(Ordering::Less) <==> a.value() < b.value(),
        spec_cmp(a, b) == Some(Ordering::Equal) <==> a.value() == b.value(),
        spec_cmp(a, b) == Some(Ordering::Greater) <==> a.value() > b.value(),
{
    if !spec_ranges_overlap(a.interval, b.interval) {
        lemma_no_overlap_separates(a.interval, b.interval);
    }
}

/// Comparison soundness for separated intervals: when every value of
/// `a`'s interval lies strictly below every value of `b`'s, the
/// comparison answers "less" from the intervals alone, whatever the
/// stored values are.
pub proof fn lemma_cmp_separated_is_less(a: Integer, b: Integer)
    requires
        a.wf(),
        b.wf(),
        a.interval.end < b.interval.start,
    ensures
        spec_cmp(a, b) == Some(Ordering::Less),
        a.value() < b.value(),
{
    lemma_cmp_sound(a, b);
}

/// The outcome of comparing two values of the 128-bit domain, resolved
/// once per pair of definition-time constants.
#[derive(Clone, Copy, Debug)]
pub struct Compare {
    pub a: i128,
    pub b: i128,
}

impl Compare {
    pub fn new(a: i128, b: i128) -> (r: Compare)
        ensures
            r.a == a,
            r.b == b,
    {
        Compare { a, b }
    }

    pub fn eq(&self) -> (r: bool)
        ensures
            r == (self.a == self.b),
    {
        self.a == self.b
    }

    pub fn ne(&self) -> (r: bool)
        ensures
            r == (self.a != self.b),
    {
        self.a != self.b
    }

    pub fn lt(&self) -> (r: bool)
        ensures
            r == (self.a < self.b),
    {
        self.a < self.b
    }

    pub fn le(&self) -> (r: bool)
        ensures
            r == (self.a <= self.b),
    {
        self.a <= self.b
    }

    pub fn gt(&self) -> (r: bool)
        ensures
            r == (self.a > self.b),
    {
        self.a > self.b
    }

    pub fn ge(&self) -> (r: bool)
        ensures
            r == (self.a >= self.b),
    {
        self.a >= self.b
    }
}

} // verus!
