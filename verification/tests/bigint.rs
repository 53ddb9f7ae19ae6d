use bounded_math::biguint::BigUInt;
use bounded_math::biguint::TryFromBigUIntError;

#[test]
fn test_rt() {
    let v1 = BigUInt::from_u16(5);
    let v2 = BigUInt::from_u64(10);

    assert!(v1 == BigUInt::from_u8(5));
    assert!(v2 == BigUInt::from_u8(10));

    let res = v1.add(v2);
    assert!(res == BigUInt::from_u8(15));
}

#[test]
fn test_ct() {
    let v1 = BigUInt::from_u16(5);
    let v2 = BigUInt::from_u64(10);

    let res = v1.add(v2);
    assert!(res == BigUInt::from_u8(15));
}

#[test]
fn test_rt_u8() {
    let v1 = BigUInt::from_u8(200);
    let v2 = BigUInt::from_u8(128);

    let res = v1.add(v2);
    assert!(res == BigUInt::from_u16(328));
}

#[test]
fn test_ct_u8() {
    let res = {
        let v1 = BigUInt::from_u8(200);
        let v2 = BigUInt::from_u8(128);

        v1.add(v2).leak_to_rt()
    };
    assert!(res == BigUInt::from_u16(328));
}

#[test]
fn test_biguint_carry_grows() {
    // 255 + 1 overflows one byte; the sum takes a second byte
    let res = BigUInt::from_u8(255).add(BigUInt::from_u8(1));
    assert!(res == BigUInt::from_u16(256));
    assert_eq!(res.try_to_u16(), Ok(256));
}

#[test]
fn test_biguint_try_to_checks_length() {
    // a two-byte value does not convert to u8, even when it would fit
    let narrow = BigUInt::from_u16(5);
    assert_eq!(narrow.try_to_u8(), Err(TryFromBigUIntError));
    assert_eq!(narrow.try_to_u16(), Ok(5));
    assert_eq!(BigUInt::from_u8(5).try_to_u8(), Ok(5));
}

#[test]
fn test_biguint_round_trips() {
    assert_eq!(BigUInt::from_u32(0xdead_beef).try_to_u32(), Ok(0xdead_beef));
    assert_eq!(BigUInt::from_u64(u64::MAX).try_to_u64(), Ok(u64::MAX));
    assert_eq!(BigUInt::from_u128(u128::MAX).try_to_u128(), Ok(u128::MAX));
    assert_eq!(
        BigUInt::from_u64(1).add(BigUInt::from_u64(u64::MAX)).try_to_u128(),
        Ok(0x1_0000_0000_0000_0000)
    );
}

#[test]
fn test_biguint_add_large() {
    let a = BigUInt::from_u128(u128::MAX);
    let b = BigUInt::from_u128(u128::MAX);
    let sum = a.add(b);
    // 2 * (2^128 - 1) needs seventeen bytes and no longer fits u128
    assert_eq!(sum.try_to_u128(), Err(TryFromBigUIntError));
    let expected = BigUInt::from_u128(u128::MAX - 1).add(BigUInt::from_u128(u128::MAX).add(BigUInt::from_u8(1)));
    assert!(sum == expected);
}

#[test]
fn test_biguint_drop() {
    let v = BigUInt::from_u8(7);
    bounded_math::biguint::drop(v);
}
