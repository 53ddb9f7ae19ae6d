use std::cmp::Ordering;

use bounded_math::cmp::{ranges_overlap, Compare};
use bounded_math::const_box::ConstBox;
use bounded_math::impls::{div_bounds, mul_bounds, rem_bounds};
use bounded_math::inner_rep::{decode, encode, range_size, storage_bytes, IntRepresentation, U0};
use bounded_math::interval::Interval;
use bounded_math::num::{Integer, IntegerRange, OutOfRange};

fn iv(start: i128, end: i128) -> Interval {
    Interval::new(start, end)
}

#[test]
fn test_encode_decode_round_trip() {
    let cases: [(i128, i128); 5] = [
        (-300, 300),
        (0, 0xffff),
        (i128::MIN, i128::MAX),
        (-1, 1),
        (42, 42),
    ];
    for k in 0..cases.len() {
        let (s, e) = cases[k];
        let interval = iv(s, e);
        let probes: [i128; 3] = [s, e, s / 2 + e / 2];
        for p in 0..probes.len() {
            let v = probes[p];
            assert_eq!(decode(interval, encode(interval, v)), v);
        }
    }
}

#[test]
fn test_encode_offsets() {
    let interval = iv(-300, 300);
    assert_eq!(encode(interval, -300).to_offset(), 0);
    assert_eq!(encode(interval, 300).to_offset(), 600);
    assert_eq!(encode(interval, 0).to_offset(), 300);
    assert_eq!(encode(interval, 0).to_i128(interval.start), 0);
}

#[test]
fn test_width_boundaries() {
    // the selector picks the smallest width whose maximum fits the size
    assert_eq!(storage_bytes(iv(0, 0)), 0);
    assert_eq!(storage_bytes(iv(0, 255)), 1);
    assert_eq!(storage_bytes(iv(0, 256)), 2);
    assert_eq!(storage_bytes(iv(0, 0xffff)), 2);
    assert_eq!(storage_bytes(iv(0, 0x1_0000)), 4);
    assert_eq!(storage_bytes(iv(0, 0xffff_ffff)), 4);
    assert_eq!(storage_bytes(iv(0, 0x1_0000_0000)), 8);
    assert_eq!(storage_bytes(iv(0, 0xffff_ffff_ffff_ffff)), 8);
    assert_eq!(storage_bytes(iv(0, 0x1_0000_0000_0000_0000)), 16);
}

#[test]
fn test_range_size() {
    assert_eq!(range_size(iv(-64, 64)), 128);
    assert_eq!(range_size(iv(5, 5)), 0);
    assert_eq!(range_size(iv(i128::MIN, i128::MAX)), u128::MAX);
    // an inverted pair still reports its magnitude
    assert_eq!(range_size(iv(3, -3)), 6);
}

#[test]
fn test_mul_scenario() {
    // every value of [-64,-1] times every value of [1,64]
    let l = iv(-64, -1);
    let r = iv(1, 64);
    let out = mul_bounds(l, r);
    assert_eq!(out.start, -4096);
    assert_eq!(out.end, -1);

    let a = Integer::try_from(l, -64).unwrap();
    let b = Integer::try_from(r, 64).unwrap();
    let prod = a.mul(b);
    assert_eq!(prod.get_value(), -4096);
    assert_eq!(prod.interval_of(), iv(-4096, -1));

    let a = Integer::try_from(l, -1).unwrap();
    let b = Integer::try_from(r, 1).unwrap();
    assert_eq!(a.mul(b).get_value(), -1);
}

#[test]
fn test_div_scenario_exhaustive() {
    // quotient interval of [3,64] / [-64,-3] equals the brute-force
    // extremes over the whole cross product
    let l = iv(3, 64);
    let r = iv(-64, -3);
    let out = div_bounds(l, r);

    let mut lo = i128::MAX;
    let mut hi = i128::MIN;
    for a in l.start..=l.end {
        for b in r.start..=r.end {
            let q = a / b;
            if q < lo {
                lo = q;
            }
            if q > hi {
                hi = q;
            }
        }
    }
    assert_eq!(out.start, lo);
    assert_eq!(out.end, hi);
    // both documented extremes lie inside
    assert!(out.contains(3 / -64));
    assert!(out.contains(64 / -3));
}

#[test]
fn test_div_straddling_divisor() {
    // a divisor interval crossing zero must cover division by 1 and -1
    let l = iv(-10, 7);
    let r = iv(-3, 5);
    let out = div_bounds(l, r);

    let mut lo = i128::MAX;
    let mut hi = i128::MIN;
    for a in l.start..=l.end {
        for b in r.start..=r.end {
            if b != 0 {
                let q = a / b;
                if q < lo {
                    lo = q;
                }
                if q > hi {
                    hi = q;
                }
            }
        }
    }
    assert_eq!(out.start, lo);
    assert_eq!(out.end, hi);

    let a = Integer::try_from(l, -10).unwrap();
    let b = Integer::try_from(r, -1).unwrap();
    let q = a.div(b);
    assert_eq!(q.get_value(), 10);
    assert_eq!(q.interval_of(), out);
}

#[test]
fn test_rem_values() {
    let l = iv(3, 64);
    let r = iv(-64, -3);
    let out = rem_bounds(l, r);
    assert_eq!(out, iv(0, 63));

    let a = Integer::try_from(l, 7).unwrap();
    let b = Integer::try_from(r, -3).unwrap();
    assert_eq!(a.rem(b).get_value(), 1);

    // a negative dividend gives a non-positive remainder
    let l2 = iv(-64, -3);
    let r2 = iv(3, 64);
    assert_eq!(rem_bounds(l2, r2), iv(-63, 0));
    let a = Integer::try_from(l2, -7).unwrap();
    let b = Integer::try_from(r2, 3).unwrap();
    assert_eq!(a.rem(b).get_value(), -1);
}

#[test]
fn test_cmp_disjoint_is_interval_level() {
    // every value of a's interval is below every value of b's
    let a = Integer::try_from(iv(0, 5), 3).unwrap();
    let b = Integer::try_from(iv(10, 20), 10).unwrap();
    assert_eq!(a.partial_cmp(&b), Some(Ordering::Less));
    assert_eq!(b.partial_cmp(&a), Some(Ordering::Greater));
    assert!(a != b);
}

#[test]
fn test_cmp_overlapping_compares_values() {
    let a = Integer::try_from(iv(0, 10), 7).unwrap();
    let b = Integer::try_from(iv(5, 20), 7).unwrap();
    assert_eq!(a.partial_cmp(&b), Some(Ordering::Equal));
    assert!(a == b);

    let c = Integer::try_from(iv(5, 20), 9).unwrap();
    assert_eq!(a.partial_cmp(&c), Some(Ordering::Less));
    assert_eq!(c.partial_cmp(&a), Some(Ordering::Greater));
    assert!(a != c);
}

#[test]
fn test_eq_single_point_needs_no_storage() {
    let a = Integer::new_exact(iv(7, 7));
    let b = Integer::new_exact(iv(7, 7));
    assert!(a == b);

    let c = Integer::new_exact(iv(8, 8));
    assert!(a != c);
}

#[test]
fn test_ranges_overlap_cases() {
    assert!(ranges_overlap(iv(0, 5), iv(5, 9)));
    assert!(ranges_overlap(iv(0, 9), iv(2, 3)));
    assert!(!ranges_overlap(iv(0, 4), iv(5, 9)));
    assert!(!ranges_overlap(iv(5, 9), iv(0, 4)));
}

#[test]
fn test_to_and_try_to() {
    let a = Integer::try_from(iv(0, 10), 5).unwrap();

    let wide = a.to(iv(-5, 50));
    assert_eq!(wide.get_value(), 5);
    assert_eq!(wide.interval_of(), iv(-5, 50));

    let same = a.try_to(iv(3, 20)).unwrap();
    assert_eq!(same.get_value(), 5);
    assert_eq!(same.interval_of(), iv(3, 20));

    assert!(a.try_to(iv(6, 20)).is_none());
}

#[test]
fn test_out_of_range_error() {
    assert_eq!(Integer::try_from(iv(0, 10), 11), Err(OutOfRange));
    assert_eq!(Integer::try_from(iv(0, 10), -1), Err(OutOfRange));
}

#[test]
fn test_primitive_interop() {
    let v = (-5i8).to_integer();
    assert_eq!(v.get_value(), -5);
    assert_eq!(v.interval_of(), iv(-128, 127));

    let v = 200u8.to_integer();
    assert_eq!(v.get_value(), 200);
    assert_eq!(v.interval_of(), iv(0, 255));

    let v = u64::MAX.to_integer();
    assert_eq!(v.get_value(), u64::MAX as i128);

    let v = i128::MIN.to_integer();
    assert_eq!(v.get_value(), i128::MIN);
    assert_eq!(<i128 as IntegerRange>::interval_of(), iv(i128::MIN, i128::MAX));
    assert_eq!(<i16 as IntegerRange>::get_value(-3i16), -3);
    assert_eq!(<u32 as IntegerRange>::interval_of(), iv(0, 0xffff_ffff));
    assert_eq!(<u16 as IntegerRange>::interval_of(), iv(0, 0xffff));
    assert_eq!(<i32 as IntegerRange>::interval_of(), iv(i32::MIN.into(), i32::MAX.into()));
    assert_eq!(<i64 as IntegerRange>::interval_of(), iv(i64::MIN.into(), i64::MAX.into()));
}

#[test]
fn test_exact_construction() {
    let v = Integer::new_exact(iv(123, 123));
    assert_eq!(v.get_value(), 123);
    assert_eq!(storage_bytes(v.interval_of()), 0);
}

#[test]
fn test_u0_try_from() {
    assert!(U0::try_from(0).is_some());
    assert!(U0::try_from(1).is_none());
}

#[test]
fn test_const_box() {
    let b = ConstBox::new(41i32);
    assert_eq!(*b.as_ref(), 41);
    assert_eq!(b.into_inner(), 41);
}

#[test]
fn test_compare() {
    let c = Compare::new(3, 5);
    assert!(c.lt() && c.le() && c.ne());
    assert!(!c.gt() && !c.ge() && !c.eq());
    let c = Compare::new(5, 5);
    assert!(c.eq() && c.le() && c.ge());
    assert!(!c.ne() && !c.lt() && !c.gt());
}

#[test]
fn test_add_extremes() {
    // sums at the far ends of the domain still encode and decode exactly
    let a = Integer::new(iv(i128::MIN, 0), i128::MIN);
    let b = Integer::new(iv(0, i128::MAX), i128::MAX);
    let sum = a.add(b);
    assert_eq!(sum.get_value(), -1);
    assert_eq!(sum.interval_of(), iv(i128::MIN, i128::MAX));
}
