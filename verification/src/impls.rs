//! Interval propagation for the arithmetic operators.  For each operator
//! the output interval is derived from the operand intervals alone; the
//! closure lemmas prove that every concrete result lands inside the
//! derived interval, and — for `+`, `-` and `*` — that both of its
//! endpoints are attained by some choice of operands.

use vstd::prelude::*;

use vstd::math::{abs, max, min};

use crate::divrem::{
    lemma_tdiv_mono_denom_pos, lemma_tdiv_mono_num, lemma_tdiv_neg_denom, lemma_tdiv_one,
    lemma_trem_bounds, tdiv, tdiv_i128, trem, trem_i128,
};
use crate::divrem::abs_u128;
use crate::interval::Interval;
use crate::num::Integer;

verus! {

/// Lower bound of the sum interval: `l0 + r0`.
pub open spec fn add_lo(l: Interval, r: Interval) -> int {
    l.start + r.start
}

/// Upper bound of the sum interval: `l1 + r1`.
pub open spec fn add_hi(l: Interval, r: Interval) -> int {
    l.end + r.end
}

/// Lower bound of the difference interval: `l0 - r1`.
pub open spec fn sub_lo(l: Interval, r: Interval) -> int {
    l.start - r.end
}

/// Upper bound of the difference interval: `l1 - r0`.
pub open spec fn sub_hi(l: Interval, r: Interval) -> int {
    l.end - r.start
}

/// Lower bound of the product interval: the least of the four corner
/// products.
pub open spec fn mul_lo(l: Interval, r: Interval) -> int {
    min(
        min(l.start * r.start, l.start * r.end),
        min(l.end * r.start, l.end * r.end),
    )
}

/// Upper bound of the product interval: the greatest of the four corner
/// products.
pub open spec fn mul_hi(l: Interval, r: Interval) -> int {
    max(
        max(l.start * r.start, l.start * r.end),
        max(l.end * r.start, l.end * r.end),
    )
}

/// The divisor interval's upper extreme with zero replaced by `-1`, the
/// nearest non-zero divisor below it.
pub open spec fn div_eff_end(r: Interval) -> int {
    if r.end == 0 {
        -1
    } else {
        r.end as int
    }
}

/// The divisor interval's lower extreme with zero replaced by `1`, the
/// nearest non-zero divisor above it.
pub open spec fn div_eff_start(r: Interval) -> int {
    if r.start == 0 {
        1
    } else {
        r.start as int
    }
}

/// The least quotient among the four candidates built from the dividend
/// extremes and the effective divisor extremes.
pub open spec fn div_base_lo(l: Interval, r: Interval) -> int {
    min(
        min(tdiv(l.start as int, div_eff_end(r)), tdiv(l.end as int, div_eff_end(r))),
        min(tdiv(l.start as int, div_eff_start(r)), tdiv(l.end as int, div_eff_start(r))),
    )
}

/// The greatest quotient among the four candidates built from the
/// dividend extremes and the effective divisor extremes.
pub open spec fn div_base_hi(l: Interval, r: Interval) -> int {
    max(
        max(tdiv(l.start as int, div_eff_end(r)), tdiv(l.end as int, div_eff_end(r))),
        max(tdiv(l.start as int, div_eff_start(r)), tdiv(l.end as int, div_eff_start(r))),
    )
}

/// Lower bound of the quotient interval.  When the divisor interval
/// contains `1` or `-1` beyond its effective extremes, those boundary
/// divisors widen the candidates: dividing by `1` yields the dividend
/// itself and dividing by `-1` its negation.
pub open spec fn div_lo(l: Interval, r: Interval) -> int {
    let base = div_base_lo(l, r);
    let with_one = if div_eff_start(r) != 1 && r.spec_contains(1) {
        min(base, l.start as int)
    } else {
        base
    };
    if div_eff_end(r) != -1 && r.spec_contains(-1) {
        min(with_one, -(l.end as int))
    } else {
        with_one
    }
}

/// Upper bound of the quotient interval; see [`div_lo`].
pub open spec fn div_hi(l: Interval, r: Interval) -> int {
    let base = div_base_hi(l, r);
    let with_one = if div_eff_start(r) != 1 && r.spec_contains(1) {
        max(base, l.end as int)
    } else {
        base
    };
    if div_eff_end(r) != -1 && r.spec_contains(-1) {
        max(with_one, -(l.start as int))
    } else {
        with_one
    }
}

/// The largest divisor magnitude the divisor interval admits.
pub open spec fn rem_eff(r: Interval) -> int {
    max(abs(r.start as int) as int, abs(r.end as int) as int)
}

/// Lower bound of the remainder interval: remainders of non-negative
/// dividends are non-negative, so the bound dips below zero only when
/// the dividend interval does.
pub open spec fn rem_lo(l: Interval, r: Interval) -> int {
    if l.start < 0 {
        -(rem_eff(r) - 1)
    } else {
        0
    }
}

/// Upper bound of the remainder interval; see [`rem_lo`].
pub open spec fn rem_hi(l: Interval, r: Interval) -> int {
    if l.end > 0 {
        rem_eff(r) - 1
    } else {
        0
    }
}

/// Closure of addition: every sum of members lands in the sum interval.
pub proof fn lemma_add_closure(l: Interval, r: Interval, a: int, b: int)
    requires
        l.spec_contains(a),
        r.spec_contains(b),
    ensures
        add_lo(l, r) <= a + b <= add_hi(l, r),
{
}

/// Both endpoints of the sum interval are attained.
pub proof fn lemma_add_bounds_attained(l: Interval, r: Interval)
    requires
        !l.spec_is_empty(),
        !r.spec_is_empty(),
    ensures
        exists|a: int, b: int|
            l.spec_contains(a) && r.spec_contains(b) && a + b == add_lo(l, r),
        exists|a: int, b: int|
            l.spec_contains(a) && r.spec_contains(b) && a + b == add_hi(l, r),
{
    assert(l.spec_contains(l.start as int) && r.spec_contains(r.start as int)
        && l.start + r.start == add_lo(l, r));
    assert(l.spec_contains(l.end as int) && r.spec_contains(r.end as int)
        && l.end + r.end == add_hi(l, r));
}

/// Closure of subtraction: every difference of members lands in the
/// difference interval.
pub proof fn lemma_sub_closure(l: Interval, r: Interval, a: int, b: int)
    requires
        l.spec_contains(a),
        r.spec_contains(b),
    ensures
        sub_lo(l, r) <= a - b <= sub_hi(l, r),
{
}

/// Both endpoints of the difference interval are attained.
pub proof fn lemma_sub_bounds_attained(l: Interval, r: Interval)
    requires
        !l.spec_is_empty(),
        !r.spec_is_empty(),
    ensures
        exists|a: int, b: int|
            l.spec_contains(a) && r.spec_contains(b) && a - b == sub_lo(l, r),
        exists|a: int, b: int|
            l.spec_contains(a) && r.spec_contains(b) && a - b == sub_hi(l, r),
{
    assert(l.spec_contains(l.start as int) && r.spec_contains(r.end as int)
        && l.start - r.end == sub_lo(l, r));
    assert(l.spec_contains(l.end as int) && r.spec_contains(r.start as int)
        && l.end - r.start == sub_hi(l, r));
}

/// A product with one factor fixed is bounded by the products with the
/// other factor at its extremes.
proof fn lemma_mul_one_side(x: int, b: int, b0: int, b1: int)
    requires
        b0 <= b <= b1,
    ensures
        min(x * b0, x * b1) <= x * b <= max(x * b0, x * b1),
{
    if x >= 0 {
        assert(x * b0 <= x * b && x * b <= x * b1) by (nonlinear_arith)
            requires
                x >= 0,
                b0 <= b <= b1,
        ;
    } else {
        assert(x * b1 <= x * b && x * b <= x * b0) by (nonlinear_arith)
            requires
                x < 0,
                b0 <= b <= b1,
        ;
    }
}

/// Closure of multiplication: every product of members lands in the
/// product interval.
pub proof fn lemma_mul_closure(l: Interval, r: Interval, a: int, b: int)
    requires
        l.spec_contains(a),
        r.spec_contains(b),
    ensures
        mul_lo(l, r) <= a * b <= mul_hi(l, r),
{
    lemma_mul_one_side(a, b, r.start as int, r.end as int);
    lemma_mul_one_side(r.start as int, a, l.start as int, l.end as int);
    lemma_mul_one_side(r.end as int, a, l.start as int, l.end as int);
    assert(a * r.start == r.start * a) by (nonlinear_arith);
    assert(a * r.end == r.end * a) by (nonlinear_arith);
    assert(l.start * r.start == r.start * l.start) by (nonlinear_arith);
    assert(l.end * r.start == r.start * l.end) by (nonlinear_arith);
    assert(l.start * r.end == r.end * l.start) by (nonlinear_arith);
    assert(l.end * r.end == r.end * l.end) by (nonlinear_arith);
}

/// Both endpoints of the product interval are attained: each is one of
/// the four corner products.
pub proof fn lemma_mul_bounds_attained(l: Interval, r: Interval)
    requires
        !l.spec_is_empty(),
        !r.spec_is_empty(),
    ensures
        exists|a: int, b: int|
            l.spec_contains(a) && r.spec_contains(b) && a * b == mul_lo(l, r),
        exists|a: int, b: int|
            l.spec_contains(a) && r.spec_contains(b) && a * b == mul_hi(l, r),
{
    let l0 = l.start as int;
    let l1 = l.end as int;
    let r0 = r.start as int;
    let r1 = r.end as int;
    if mul_lo(l, r) == l0 * r0 {
        assert(l.spec_contains(l0) && r.spec_contains(r0) && l0 * r0 == mul_lo(l, r));
    } else if mul_lo(l, r) == l0 * r1 {
        assert(l.spec_contains(l0) && r.spec_contains(r1) && l0 * r1 == mul_lo(l, r));
    } else if mul_lo(l, r) == l1 * r0 {
        assert(l.spec_contains(l1) && r.spec_contains(r0) && l1 * r0 == mul_lo(l, r));
    } else {
        assert(l.spec_contains(l1) && r.spec_contains(r1) && l1 * r1 == mul_lo(l, r));
    }
    if mul_hi(l, r) == l0 * r0 {
        assert(l.spec_contains(l0) && r.spec_contains(r0) && l0 * r0 == mul_hi(l, r));
    } else if mul_hi(l, r) == l0 * r1 {
        assert(l.spec_contains(l0) && r.spec_contains(r1) && l0 * r1 == mul_hi(l, r));
    } else if mul_hi(l, r) == l1 * r0 {
        assert(l.spec_contains(l1) && r.spec_contains(r0) && l1 * r0 == mul_hi(l, r));
    } else {
        assert(l.spec_contains(l1) && r.spec_contains(r1) && l1 * r1 == mul_hi(l, r));
    }
}

/// Closure of division: for every dividend in the dividend interval and
/// every non-zero divisor in the divisor interval, the truncated
/// quotient lands in the derived quotient interval.
pub proof fn lemma_div_closure(l: Interval, r: Interval, a: int, b: int)
    requires
        !l.spec_is_empty(),
        !r.spec_is_empty(),
        !(r.start == 0 && r.end == 0),
        l.spec_contains(a),
        r.spec_contains(b),
        b != 0,
    ensures
        div_lo(l, r) <= tdiv(a, b) <= div_hi(l, r),
{
    let l0 = l.start as int;
    let l1 = l.end as int;
    let r0 = r.start as int;
    let r1 = r.end as int;
    let es = div_eff_start(r);
    let ee = div_eff_end(r);
    lemma_tdiv_mono_num(l0, a, b);
    lemma_tdiv_mono_num(a, l1, b);
    if b > 0 {
        // the divisor interval reaches at least to b >= 1, so ee == r1
        if r0 >= 1 {
            lemma_tdiv_mono_denom_pos(l0, es, b);
            lemma_tdiv_mono_denom_pos(l0, b, ee);
            lemma_tdiv_mono_denom_pos(l1, es, b);
            lemma_tdiv_mono_denom_pos(l1, b, ee);
        } else {
            // divisors of this sign run from 1 up to ee == r1
            lemma_tdiv_one(l0);
            lemma_tdiv_one(l1);
            lemma_tdiv_mono_denom_pos(l0, 1, b);
            lemma_tdiv_mono_denom_pos(l0, b, ee);
            lemma_tdiv_mono_denom_pos(l1, 1, b);
            lemma_tdiv_mono_denom_pos(l1, b, ee);
        }
    } else {
        // the divisor interval reaches at least down to b <= -1, so es == r0
        if r1 <= -1 {
            lemma_tdiv_neg_denom(l0, es);
            lemma_tdiv_neg_denom(l0, b);
            lemma_tdiv_neg_denom(l0, ee);
            lemma_tdiv_neg_denom(l1, es);
            lemma_tdiv_neg_denom(l1, b);
            lemma_tdiv_neg_denom(l1, ee);
            lemma_tdiv_mono_denom_pos(l0, -ee, -b);
            lemma_tdiv_mono_denom_pos(l0, -b, -es);
            lemma_tdiv_mono_denom_pos(l1, -ee, -b);
            lemma_tdiv_mono_denom_pos(l1, -b, -es);
        } else {
            // divisors of this sign run from es == r0 up to -1
            lemma_tdiv_one(l0);
            lemma_tdiv_one(l1);
            lemma_tdiv_neg_denom(l0, es);
            lemma_tdiv_neg_denom(l0, b);
            lemma_tdiv_neg_denom(l1, es);
            lemma_tdiv_neg_denom(l1, b);
            lemma_tdiv_mono_denom_pos(l0, 1, -b);
            lemma_tdiv_mono_denom_pos(l0, -b, -es);
            lemma_tdiv_mono_denom_pos(l1, 1, -b);
            lemma_tdiv_mono_denom_pos(l1, -b, -es);
        }
    }
}

/// Closure of the remainder: its magnitude stays below the largest
/// divisor magnitude and its sign follows the dividend interval.
pub proof fn lemma_rem_closure(l: Interval, r: Interval, a: int, b: int)
    requires
        !l.spec_is_empty(),
        !r.spec_is_empty(),
        !(r.start == 0 && r.end == 0),
        l.spec_contains(a),
        r.spec_contains(b),
        b != 0,
    ensures
        rem_lo(l, r) <= trem(a, b) <= rem_hi(l, r),
{
    lemma_trem_bounds(a, b);
    if b >= 0 {
        assert(abs(b) == b && b <= abs(r.end as int));
    } else {
        assert(abs(b) == -b && -b <= abs(r.start as int));
    }
    assert(abs(b) <= rem_eff(r));
}

/// The sum interval, computed at runtime.  The preconditions are the
/// machine limits: both endpoints must fit the signed 128-bit domain.
pub fn add_bounds(l: Interval, r: Interval) -> (o: Interval)
    requires
        !l.spec_is_empty(),
        !r.spec_is_empty(),
        i128::MIN <= add_lo(l, r),
        add_hi(l, r) <= i128::MAX,
    ensures
        o.start as int == add_lo(l, r),
        o.end as int == add_hi(l, r),
        !o.spec_is_empty(),
{
    let lo = l.start.checked_add(r.start).unwrap();
    let hi = l.end.checked_add(r.end).unwrap();
    Interval::new(lo, hi)
}

/// The difference interval, computed at runtime.
pub fn sub_bounds(l: Interval, r: Interval) -> (o: Interval)
    requires
        !l.spec_is_empty(),
        !r.spec_is_empty(),
        i128::MIN <= sub_lo(l, r),
        sub_hi(l, r) <= i128::MAX,
    ensures
        o.start as int == sub_lo(l, r),
        o.end as int == sub_hi(l, r),
        !o.spec_is_empty(),
{
    let lo = l.start.checked_sub(r.end).unwrap();
    let hi = l.end.checked_sub(r.start).unwrap();
    Interval::new(lo, hi)
}

/// The product interval, computed at runtime.  The machine limit asks
/// that all four corner products fit the signed 128-bit domain.
pub fn mul_bounds(l: Interval, r: Interval) -> (o: Interval)
    requires
        !l.spec_is_empty(),
        !r.spec_is_empty(),
        i128::MIN <= l.start * r.start <= i128::MAX,
        i128::MIN <= l.start * r.end <= i128::MAX,
        i128::MIN <= l.end * r.start <= i128::MAX,
        i128::MIN <= l.end * r.end <= i128::MAX,
    ensures
        o.start as int == mul_lo(l, r),
        o.end as int == mul_hi(l, r),
        !o.spec_is_empty(),
{
    let p00 = l.start.checked_mul(r.start).unwrap();
    let p01 = l.start.checked_mul(r.end).unwrap();
    let p10 = l.end.checked_mul(r.start).unwrap();
    let p11 = l.end.checked_mul(r.end).unwrap();
    let lo0 = if p00 <= p01 { p00 } else { p01 };
    let lo1 = if p10 <= p11 { p10 } else { p11 };
    let lo = if lo0 <= lo1 { lo0 } else { lo1 };
    let hi0 = if p00 >= p01 { p00 } else { p01 };
    let hi1 = if p10 >= p11 { p10 } else { p11 };
    let hi = if hi0 >= hi1 { hi0 } else { hi1 };
    Interval::new(lo, hi)
}

/// The quotient interval, computed at runtime.  The machine limit asks
/// that both derived endpoints fit the signed 128-bit domain; a divisor
/// interval of exactly `{0}` admits no quotient interval at all.
pub fn div_bounds(l: Interval, r: Interval) -> (o: Interval)
    requires
        !l.spec_is_empty(),
        !r.spec_is_empty(),
        !(r.start == 0 && r.end == 0),
        i128::MIN <= div_lo(l, r),
        div_hi(l, r) <= i128::MAX,
    ensures
        o.start as int == div_lo(l, r),
        o.end as int == div_hi(l, r),
        !o.spec_is_empty(),
{
    let ee: i128 = if r.end == 0 { -1 } else { r.end };
    let es: i128 = if r.start == 0 { 1 } else { r.start };
    let v1 = tdiv_i128(l.start, ee);
    let v2 = tdiv_i128(l.end, ee);
    let v3 = tdiv_i128(l.start, es);
    let v4 = tdiv_i128(l.end, es);
    let mut lo: i128 = if v1 <= v2 { v1 } else { v2 };
    if v3 < lo {
        lo = v3;
    }
    if v4 < lo {
        lo = v4;
    }
    let mut hi: i128 = if v1 >= v2 { v1 } else { v2 };
    if v3 > hi {
        hi = v3;
    }
    if v4 > hi {
        hi = v4;
    }
    if es != 1 && r.contains(1) {
        if l.start < lo {
            lo = l.start;
        }
        if l.end > hi {
            hi = l.end;
        }
    }
    if ee != -1 && r.contains(-1) {
        let n_end = -l.end;
        let n_start = -l.start;
        if n_end < lo {
            lo = n_end;
        }
        if n_start > hi {
            hi = n_start;
        }
    }
    Interval::new(lo, hi)
}

/// The remainder interval, computed at runtime.  Always fits: the
/// remainder magnitude is strictly below the divisor magnitude.
pub fn rem_bounds(l: Interval, r: Interval) -> (o: Interval)
    requires
        !l.spec_is_empty(),
        !r.spec_is_empty(),
        !(r.start == 0 && r.end == 0),
    ensures
        o.start as int == rem_lo(l, r),
        o.end as int == rem_hi(l, r),
        !o.spec_is_empty(),
{
    let ea = abs_u128(r.start);
    let eb = abs_u128(r.end);
    let eff: u128 = if ea >= eb { ea } else { eb };
    let lim: i128 = (eff - 1) as i128;
    let lo: i128 = if l.start < 0 { -lim } else { 0 };
    let hi: i128 = if l.end > 0 { lim } else { 0 };
    Interval::new(lo, hi)
}

impl Integer {
    /// Add two bounded integers.  The result's interval is the sum
    /// interval of the operands', and its value the sum of theirs.
    pub fn add(self, rhs: Integer) -> (r: Integer)
        requires
            self.wf(),
            rhs.wf(),
            i128::MIN <= add_lo(self.interval, rhs.interval),
            add_hi(self.interval, rhs.interval) <= i128::MAX,
        ensures
            r.wf(),
            r.interval.start as int == add_lo(self.interval, rhs.interval),
            r.interval.end as int == add_hi(self.interval, rhs.interval),
            r.value() == self.value() + rhs.value(),
    {
        let out = add_bounds(self.interval_of(), rhs.interval_of());
        let a = self.get_value();
        let b = rhs.get_value();
        proof {
            lemma_add_closure(self.interval, rhs.interval, self.value(), rhs.value());
        }
        let v = a.checked_add(b).unwrap();
        Integer::new(out, v)
    }

    /// Subtract a bounded integer from this one.
    pub fn sub(self, rhs: Integer) -> (r: Integer)
        requires
            self.wf(),
            rhs.wf(),
            i128::MIN <= sub_lo(self.interval, rhs.interval),
            sub_hi(self.interval, rhs.interval) <= i128::MAX,
        ensures
            r.wf(),
            r.interval.start as int == sub_lo(self.interval, rhs.interval),
            r.interval.end as int == sub_hi(self.interval, rhs.interval),
            r.value() == self.value() - rhs.value(),
    {
        let out = sub_bounds(self.interval_of(), rhs.interval_of());
        let a = self.get_value();
        let b = rhs.get_value();
        proof {
            lemma_sub_closure(self.interval, rhs.interval, self.value(), rhs.value());
        }
        let v = a.checked_sub(b).unwrap();
        Integer::new(out, v)
    }

    /// Multiply two bounded integers.
    pub fn mul(self, rhs: Integer) -> (r: Integer)
        requires
            self.wf(),
            rhs.wf(),
            i128::MIN <= self.interval.start * rhs.interval.start <= i128::MAX,
            i128::MIN <= self.interval.start * rhs.interval.end <= i128::MAX,
            i128::MIN <= self.interval.end * rhs.interval.start <= i128::MAX,
            i128::MIN <= self.interval.end * rhs.interval.end <= i128::MAX,
        ensures
            r.wf(),
            r.interval.start as int == mul_lo(self.interval, rhs.interval),
            r.interval.end as int == mul_hi(self.interval, rhs.interval),
            r.value() == self.value() * rhs.value(),
    {
        let out = mul_bounds(self.interval_of(), rhs.interval_of());
        let a = self.get_value();
        let b = rhs.get_value();
        proof {
            lemma_mul_closure(self.interval, rhs.interval, self.value(), rhs.value());
        }
        let v = a.checked_mul(b).unwrap();
        Integer::new(out, v)
    }

    /// Divide this bounded integer by another, truncating toward zero.
    /// A divisor interval of exactly `{0}` and a zero divisor value are
    /// both rejected at the call site; the quotient interval endpoints
    /// must fit the signed 128-bit domain.
    pub fn div(self, rhs: Integer) -> (r: Integer)
        requires
            self.wf(),
            rhs.wf(),
            !(rhs.interval.start == 0 && rhs.interval.end == 0),
            rhs.value() != 0,
            i128::MIN <= div_lo(self.interval, rhs.interval),
            div_hi(self.interval, rhs.interval) <= i128::MAX,
        ensures
            r.wf(),
            r.interval.start as int == div_lo(self.interval, rhs.interval),
            r.interval.end as int == div_hi(self.interval, rhs.interval),
            r.value() == tdiv(self.value(), rhs.value()),
    {
        let out = div_bounds(self.interval_of(), rhs.interval_of());
        let a = self.get_value();
        let b = rhs.get_value();
        proof {
            lemma_div_closure(self.interval, rhs.interval, self.value(), rhs.value());
        }
        let v = tdiv_i128(a, b);
        Integer::new(out, v)
    }

    /// The remainder of truncated division; its sign follows the
    /// dividend.  A divisor interval of exactly `{0}` and a zero divisor
    /// value are both rejected at the call site.
    pub fn rem(self, rhs: Integer) -> (r: Integer)
        requires
            self.wf(),
            rhs.wf(),
            !(rhs.interval.start == 0 && rhs.interval.end == 0),
            rhs.value() != 0,
        ensures
            r.wf(),
            r.interval.start as int == rem_lo(self.interval, rhs.interval),
            r.interval.end as int == rem_hi(self.interval, rhs.interval),
            r.value() == trem(self.value(), rhs.value()),
    {
        let out = rem_bounds(self.interval_of(), rhs.interval_of());
        let a = self.get_value();
        let b = rhs.get_value();
        proof {
            lemma_rem_closure(self.interval, rhs.interval, self.value(), rhs.value());
        }
        let v = trem_i128(a, b);
        Integer::new(out, v)
    }
}

} // verus!
