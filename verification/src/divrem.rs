//! Truncated (round-toward-zero) division and remainder over the
//! mathematical integers, as Rust's `/` and `%` compute them, together
//! with the monotonicity facts the interval propagation proofs rest on.

use vstd::prelude::*;

use vstd::arithmetic::div_mod::{
    lemma_div_basics_1, lemma_div_basics_2, lemma_div_is_ordered,
    lemma_div_is_ordered_by_denominator, lemma_div_nonincreasing, lemma_div_pos_is_pos,
    lemma_mod_bound,
};
use vstd::math::abs;

use crate::interval::sub_to_u128;

verus! {

/// Truncated division: the quotient of `x` and `d` rounded toward zero.
/// This is what Rust's signed `/` computes.
pub open spec fn tdiv(x: int, d: int) -> int
    recommends
        d != 0,
{
    if x >= 0 && d > 0 {
        x / d
    } else if x >= 0 {
        -(x / -d)
    } else if d > 0 {
        -(-x / d)
    } else {
        -x / -d
    }
}

/// Truncated remainder: `x - tdiv(x, d) * d`; its sign follows the
/// dividend.  This is what Rust's signed `%` computes.
pub open spec fn trem(x: int, d: int) -> int
    recommends
        d != 0,
{
    if x >= 0 && d > 0 {
        x % d
    } else if x >= 0 {
        x % -d
    } else if d > 0 {
        -(-x % d)
    } else {
        -(-x % -d)
    }
}

/// Division by `1` is the identity and division by `-1` is negation.
pub proof fn lemma_tdiv_one(x: int)
    ensures
        tdiv(x, 1) == x,
        tdiv(x, -1) == -x,
{
    lemma_div_basics_2(x);
    lemma_div_basics_2(-x);
}

/// A negative divisor negates the quotient of the positive one.
pub proof fn lemma_tdiv_neg_denom(x: int, d: int)
    requires
        d < 0,
    ensures
        tdiv(x, d) == -tdiv(x, -d),
{
}

/// `tdiv` agrees with the case split used by the standard library's
/// checked signed division.
pub proof fn lemma_tdiv_formula(x: int, d: int)
    requires
        d != 0,
    ensures
        tdiv(x, d) == if x == 0 {
            0
        } else if x > 0 && d > 0 {
            x / d
        } else if x < 0 && d < 0 {
            (x * -1) / (d * -1)
        } else if x < 0 {
            ((x * -1) / d) * -1
        } else {
            (x / (d * -1)) * -1
        },
{
    if x == 0 {
        if d > 0 {
            lemma_div_basics_1(d);
        } else {
            lemma_div_basics_1(-d);
        }
    }
}

/// `trem` agrees with the case split used by the standard library's
/// checked signed remainder.
pub proof fn lemma_trem_formula(x: int, d: int)
    requires
        d != 0,
    ensures
        trem(x, d) == if x == 0 {
            0
        } else if x > 0 && d > 0 {
            x % d
        } else if x < 0 && d < 0 {
            ((x * -1) % (d * -1)) * -1
        } else if x < 0 {
            ((x * -1) % d) * -1
        } else {
            x % (d * -1)
        },
{
    if x == 0 {
        if d > 0 {
            lemma_mod_bound(0, d);
            vstd::arithmetic::div_mod::lemma_small_mod(0, d as nat);
        } else {
            vstd::arithmetic::div_mod::lemma_small_mod(0, (-d) as nat);
        }
    }
}

/// Truncated division is monotone in the numerator: increasing for a
/// positive divisor, decreasing for a negative one.
pub proof fn lemma_tdiv_mono_num(a: int, b: int, d: int)
    requires
        a <= b,
        d != 0,
    ensures
        d > 0 ==> tdiv(a, d) <= tdiv(b, d),
        d < 0 ==> tdiv(b, d) <= tdiv(a, d),
{
    if d > 0 {
        lemma_tdiv_mono_num_pos(a, b, d);
    } else {
        lemma_tdiv_mono_num_pos(a, b, -d);
        lemma_tdiv_neg_denom(a, d);
        lemma_tdiv_neg_denom(b, d);
    }
}

proof fn lemma_tdiv_mono_num_pos(a: int, b: int, d: int)
    requires
        a <= b,
        d > 0,
    ensures
        tdiv(a, d) <= tdiv(b, d),
{
    if a >= 0 {
        lemma_div_is_ordered(a, b, d);
    } else if b >= 0 {
        lemma_div_pos_is_pos(-a, d);
        lemma_div_pos_is_pos(b, d);
    } else {
        lemma_div_is_ordered(-b, -a, d);
    }
}

/// For a fixed numerator, growing a positive divisor moves the quotient
/// toward zero: the quotient stays between the numerator itself and zero.
pub proof fn lemma_tdiv_mono_denom_pos(x: int, d1: int, d2: int)
    requires
        1 <= d1 <= d2,
    ensures
        x >= 0 ==> 0 <= tdiv(x, d2) <= tdiv(x, d1) <= x,
        x < 0 ==> x <= tdiv(x, d1) <= tdiv(x, d2) <= 0,
{
    if x >= 0 {
        lemma_div_is_ordered_by_denominator(x, d1, d2);
        lemma_div_nonincreasing(x, d1);
        lemma_div_pos_is_pos(x, d2);
    } else {
        lemma_div_is_ordered_by_denominator(-x, d1, d2);
        lemma_div_nonincreasing(-x, d1);
        lemma_div_pos_is_pos(-x, d2);
    }
}

/// The truncated remainder is smaller in magnitude than the divisor and
/// carries the dividend's sign.
pub proof fn lemma_trem_bounds(x: int, d: int)
    requires
        d != 0,
    ensures
        x >= 0 ==> 0 <= trem(x, d) <= abs(d) - 1,
        x < 0 ==> -(abs(d) - 1) <= trem(x, d) <= 0,
        x == 0 ==> trem(x, d) == 0,
{
    if x == 0 {
        vstd::arithmetic::div_mod::lemma_small_mod(0, abs(d));
    } else if x >= 0 {
        lemma_mod_bound(x, abs(d) as int);
    } else {
        lemma_mod_bound(-x, abs(d) as int);
    }
}

/// The absolute value of a signed 128-bit integer, exact over the whole
/// domain (the magnitude of the minimum exceeds `i128::MAX`).
pub fn abs_u128(x: i128) -> (r: u128)
    ensures
        r as int == abs(x as int),
{
    if x >= 0 {
        x as u128
    } else {
        sub_to_u128(0, x)
    }
}

/// Runtime truncated division, total on every pair whose mathematical
/// quotient fits the signed 128-bit domain.
pub fn tdiv_i128(a: i128, d: i128) -> (q: i128)
    requires
        d != 0,
        i128::MIN <= tdiv(a as int, d as int) <= i128::MAX,
    ensures
        q as int == tdiv(a as int, d as int),
{
    proof {
        lemma_tdiv_formula(a as int, d as int);
    }
    let q = a.checked_div(d);
    q.unwrap()
}

/// Runtime truncated remainder, total on every pair with a non-zero
/// divisor: the remainder always fits the signed 128-bit domain.
pub fn trem_i128(a: i128, d: i128) -> (q: i128)
    requires
        d != 0,
    ensures
        q as int == trem(a as int, d as int),
{
    proof {
        lemma_trem_formula(a as int, d as int);
        lemma_trem_bounds(a as int, d as int);
    }
    if d == -1 {
        0
    } else {
        let q = a.checked_rem(d);
        q.unwrap()
    }
}

} // verus!
