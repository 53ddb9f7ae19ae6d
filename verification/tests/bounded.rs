use bounded_math::inner_rep::storage_bytes;
use bounded_math::interval::Interval;
use bounded_math::num::{Integer, IntegerRange};

fn assert_in_range(val: &Integer, min_seen: &mut bool, max_seen: &mut bool) {
    let iv = val.interval_of();
    let v = val.get_value();
    assert!(iv.contains(v), "{v} outside {iv:?}");
    if v == iv.start {
        *min_seen = true;
    }
    if v == iv.end {
        *max_seen = true;
    }
}

fn exhaustive_check(lhs: Interval, rhs: Interval) {
    let mut add_min = false;
    let mut add_max = false;

    let mut sub_min = false;
    let mut sub_max = false;

    let mut mul_min = false;
    let mut mul_max = false;

    let mut div_min = false;
    let mut div_max = false;

    let mut rem_min = false;
    let mut rem_max = false;

    let zero_divisor_interval = rhs.start == 0 && rhs.end == 0;

    for a in lhs.start..=lhs.end {
        for b in rhs.start..=rhs.end {
            let a = Integer::try_from(lhs, a).unwrap();
            let b = Integer::try_from(rhs, b).unwrap();
            assert_in_range(&a.add(b), &mut add_min, &mut add_max);
            assert_in_range(&a.sub(b), &mut sub_min, &mut sub_max);
            assert_in_range(&a.mul(b), &mut mul_min, &mut mul_max);
            if !zero_divisor_interval && b.get_value() != 0 {
                assert_in_range(&a.div(b), &mut div_min, &mut div_max);
            }
            if !zero_divisor_interval && b.get_value() != 0 {
                assert_in_range(&a.rem(b), &mut rem_min, &mut rem_max);
            }
        }
    }

    let _ = rem_min;
    let _ = rem_max;

    assert!(add_min);
    assert!(add_max);

    assert!(sub_min);
    assert!(sub_max);

    assert!(mul_min);
    assert!(mul_max);

    if !zero_divisor_interval {
        assert!(div_min);
        assert!(div_max);
    }
}

fn iv(start: i128, end: i128) -> Interval {
    Interval::new(start, end)
}

#[test]
fn test_gen() {
    let ranges: [(i128, i128); 15] = [
        (3, 64),
        (-3, 64),
        (-64, 3),
        (-64, -3),
        (2, 64),
        (-2, 64),
        (-64, 2),
        (-64, -2),
        (-1, 64),
        (-64, 64),
        (-64, 1),
        (-64, -1),
        (0, 64),
        (0, 64),
        (-64, 0),
    ];
    for k in 0..ranges.len() {
        let (s, e) = ranges[k];
        exhaustive_check(iv(s, e), iv(s, e));
        if k + 1 < ranges.len() {
            let (s2, e2) = ranges[k + 1];
            exhaustive_check(iv(s, e), iv(s2, e2));
        }
    }
}

#[test]
fn test_only_pos_only_neg() {
    exhaustive_check(iv(1, 64), iv(-64, -1));
}

#[test]
fn test_only_neg_only_pos() {
    exhaustive_check(iv(-64, -1), iv(1, 64));
}

#[test]
fn test_only_pos_only_neg_two() {
    exhaustive_check(iv(2, 64), iv(-64, -2));
}

#[test]
fn test_only_neg_only_pos_two() {
    exhaustive_check(iv(-64, -2), iv(2, 64));
}

#[test]
fn test_only_pos_only_neg_three() {
    exhaustive_check(iv(3, 64), iv(-64, -3));
}

#[test]
fn test_only_neg_only_pos_three() {
    exhaustive_check(iv(-64, -3), iv(3, 64));
}

#[test]
fn test_i8_i8() {
    exhaustive_check(<i8 as IntegerRange>::interval_of(), <i8 as IntegerRange>::interval_of());
}

#[test]
fn test_i8_u8() {
    exhaustive_check(<i8 as IntegerRange>::interval_of(), <u8 as IntegerRange>::interval_of());
}

#[test]
fn test_u8_i8() {
    exhaustive_check(<u8 as IntegerRange>::interval_of(), <i8 as IntegerRange>::interval_of());
}

#[test]
fn test_u8_u8() {
    exhaustive_check(<u8 as IntegerRange>::interval_of(), <u8 as IntegerRange>::interval_of());
}

#[test]
fn test_size() {
    assert_eq!(storage_bytes(iv(-1, 1)), 1);
    assert_eq!(storage_bytes(iv(-128, 127)), 1);

    assert_eq!(storage_bytes(iv(-128, 128)), 2);
    assert_eq!(storage_bytes(iv(i16::MIN.into(), i16::MAX.into())), 2);
    assert_eq!(storage_bytes(iv(i32::MIN.into(), i32::MAX.into())), 4);
    assert_eq!(storage_bytes(iv(i64::MIN.into(), i64::MAX.into())), 8);
    assert_eq!(storage_bytes(iv(i128::MIN, i128::MAX)), 16);

    assert_eq!(
        storage_bytes(iv(i16::MIN.into(), i128::from(i16::MIN) + i128::from(u8::MAX))),
        1
    );

    assert_eq!(storage_bytes(iv(i16::MIN.into(), i16::MIN.into())), 0);
}

#[test]
fn test_bound() {
    const A: i128 = 123_456;
    const B: i128 = 1_234_567;
    const C: i128 = A + B;

    let a = Integer::new(iv(A, A + 1), A);
    let b = Integer::new(iv(B, B + 1), B);
    let sum = a.add(b);

    let expected = Integer::new_exact(iv(C, C));
    assert!(sum == expected);
}

#[test]
fn test_from() {
    let nice_u8 = <u8 as IntegerRange>::interval_of();
    assert!(Integer::try_from(nice_u8, 256).is_err());
    assert!(Integer::try_from(nice_u8, 255).is_ok());
}
