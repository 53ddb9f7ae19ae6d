//! An arbitrary-precision unsigned integer stored as little-endian
//! bytes.  Construction from the fixed-width primitives, addition with
//! carry propagation (growing by one byte on final overflow), and
//! number-level comparison that ignores high zero padding.

use vstd::prelude::*;

use core::cmp::Ordering;

use vstd::arithmetic::div_mod::lemma_fundamental_div_mod;

use crate::const_box::ConstBox;

verus! {

/// `256^n`: the weight of the byte at position `n`.
pub open spec fn pow256(n: nat) -> nat
    decreases n,
{
    if n == 0 {
        1
    } else {
        256 * pow256((n - 1) as nat)
    }
}

/// The byte at position `i`, reading positions past the end as zero:
/// high zero padding does not change the number.
pub open spec fn byte_at(s: Seq<u8>, i: int) -> u8 {
    if 0 <= i < s.len() {
        s[i]
    } else {
        0
    }
}

/// The value contributed by the bytes below position `i`.
pub open spec fn prefix_nat(s: Seq<u8>, i: int) -> nat
    decreases i,
{
    if i <= 0 {
        0
    } else {
        prefix_nat(s, i - 1) + (byte_at(s, i - 1) as nat) * pow256((i - 1) as nat)
    }
}

/// The value contributed by the bytes at position `i` and above, with
/// their absolute weights.
pub open spec fn high_nat(s: Seq<u8>, i: int) -> nat
    decreases s.len() - i,
{
    if i < 0 || i >= s.len() {
        0
    } else {
        (byte_at(s, i) as nat) * pow256(i as nat) + high_nat(s, i + 1)
    }
}

/// The number a little-endian byte string denotes.
pub open spec fn le_bytes_nat(s: Seq<u8>) -> nat {
    prefix_nat(s, s.len() as int)
}

/// Powers of 256 are positive.
pub proof fn lemma_pow256_pos(n: nat)
    ensures
        pow256(n) >= 1,
    decreases n,
{
    if n > 0 {
        lemma_pow256_pos((n - 1) as nat);
    }
}

/// Powers of 256 grow with the exponent.
pub proof fn lemma_pow256_mono(m: nat, n: nat)
    requires
        m <= n,
    ensures
        pow256(m) <= pow256(n),
    decreases n,
{
    if m < n {
        lemma_pow256_mono(m, (n - 1) as nat);
        lemma_pow256_pos((n - 1) as nat);
    }
}

/// The concrete weights of the byte positions that the fixed-width
/// primitives occupy.
pub proof fn lemma_pow256_values()
    ensures
        pow256(1) == 0x100,
        pow256(2) == 0x1_0000,
        pow256(4) == 0x1_0000_0000,
        pow256(8) == 0x1_0000_0000_0000_0000,
        pow256(16) == 0x1_0000_0000_0000_0000_0000_0000_0000_0000,
{
    reveal_with_fuel(pow256, 18);
    assert(pow256(1) == 0x100);
    assert(pow256(2) == 0x1_0000);
    assert(pow256(3) == 0x100_0000);
    assert(pow256(4) == 0x1_0000_0000);
    assert(pow256(5) == 0x100_0000_0000);
    assert(pow256(6) == 0x1_0000_0000_0000);
    assert(pow256(7) == 0x100_0000_0000_0000);
    assert(pow256(8) == 0x1_0000_0000_0000_0000);
    assert(pow256(9) == 0x100_0000_0000_0000_0000);
    assert(pow256(10) == 0x1_0000_0000_0000_0000_0000);
    assert(pow256(11) == 0x100_0000_0000_0000_0000_0000);
    assert(pow256(12) == 0x1_0000_0000_0000_0000_0000_0000);
    assert(pow256(13) == 0x100_0000_0000_0000_0000_0000_0000);
    assert(pow256(14) == 0x1_0000_0000_0000_0000_0000_0000_0000);
    assert(pow256(15) == 0x100_0000_0000_0000_0000_0000_0000_0000);
    assert(pow256(16) == 0x1_0000_0000_0000_0000_0000_0000_0000_0000);
}

/// Appending a byte does not change the value of the bytes below `i`.
pub proof fn lemma_prefix_push(s: Seq<u8>, y: u8, i: int)
    requires
        i <= s.len(),
    ensures
        prefix_nat(s.push(y), i) == prefix_nat(s, i),
    decreases i,
{
    if i > 0 {
        lemma_prefix_push(s, y, i - 1);
        assert(byte_at(s.push(y), i - 1) == byte_at(s, i - 1));
    }
}

/// Beyond the last byte the prefix value is the whole number.
pub proof fn lemma_prefix_beyond(s: Seq<u8>, i: int)
    requires
        i >= s.len(),
    ensures
        prefix_nat(s, i) == le_bytes_nat(s),
    decreases i,
{
    if i > s.len() {
        lemma_prefix_beyond(s, i - 1);
        assert(byte_at(s, i - 1) == 0);
    }
}

/// The bytes below position `i` denote less than the weight of
/// position `i`.
pub proof fn lemma_prefix_bound(s: Seq<u8>, i: int)
    ensures
        prefix_nat(s, i) < pow256(if i >= 0 {
            i as nat
        } else {
            0
        }),
    decreases i,
{
    if i <= 0 {
        lemma_pow256_pos(0);
    } else {
        lemma_prefix_bound(s, i - 1);
        let p = pow256((i - 1) as nat);
        let b = byte_at(s, i - 1) as nat;
        assert(b * p <= 255 * p) by (nonlinear_arith)
            requires
                b <= 255,
                p >= 0,
        ;
        assert(prefix_nat(s, i) < p + 255 * p);
    }
}

/// A byte string denotes less than the weight of the position just past
/// its end.
pub proof fn lemma_le_bytes_bound(s: Seq<u8>)
    ensures
        le_bytes_nat(s) < pow256(s.len()),
{
    lemma_prefix_bound(s, s.len() as int);
}

/// The number splits at any position into the prefix below it and the
/// high part at and above it.
pub proof fn lemma_split(s: Seq<u8>, i: int)
    requires
        0 <= i,
    ensures
        le_bytes_nat(s) == prefix_nat(s, i) + high_nat(s, i),
    decreases s.len() - i,
{
    if i >= s.len() {
        lemma_prefix_beyond(s, i);
    } else {
        lemma_split(s, i + 1);
    }
}

/// Past the end, the high part is zero.
pub proof fn lemma_high_beyond(s: Seq<u8>, i: int)
    requires
        i >= s.len(),
    ensures
        high_nat(s, i) == 0,
{
}

/// One step of the high part: peel off the byte at position `j`.
/// Holds beyond the end too, where the byte and both parts are zero.
pub proof fn lemma_high_step(s: Seq<u8>, j: int)
    requires
        0 <= j,
    ensures
        high_nat(s, j) == (byte_at(s, j) as nat) * pow256(j as nat) + high_nat(s, j + 1),
{
    if j >= s.len() {
        lemma_high_beyond(s, j);
        lemma_high_beyond(s, j + 1);
    }
}

/// The error of converting a big unsigned integer into a fixed-width
/// primitive it does not fit.
#[derive(Clone, Copy, Debug, PartialEq, Eq, Structural)]
pub struct TryFromBigUIntError;

/// An arbitrary-precision unsigned integer: little-endian bytes in an
/// exclusively owned buffer.
#[derive(Debug)]
pub struct BigUInt {
    data: ConstBox<Vec<u8>>,
}

impl View for BigUInt {
    type V = Seq<u8>;

    closed spec fn view(&self) -> Seq<u8> {
        self.data@@
    }
}

/// Consume a value; the owner gives it up and nothing remains.
pub fn drop<T>(_value: T) {
}

/// Build exactly `n` little-endian bytes denoting `value`.
fn le_bytes_of(value: u128, n: usize) -> (v: Vec<u8>)
    requires
        value < pow256(n as nat),
    ensures
        v@.len() == n,
        le_bytes_nat(v@) == value,
{
    let mut v: Vec<u8> = Vec::new();
    let mut rest: u128 = value;
    let mut i: usize = 0;
    proof {
        assert(pow256(0) == 1);
        assert((value as nat) * pow256(0) == value) by (nonlinear_arith)
            requires
                pow256(0) == 1,
        ;
    }
    while i < n
        invariant
            i <= n,
            v@.len() == i,
            rest < pow256((n - i) as nat),
            prefix_nat(v@, i as int) + rest * pow256(i as nat) == value,
        decreases n - i,
    {
        let byte = (rest % 256) as u8;
        let rest2 = rest / 256;
        proof {
            lemma_fundamental_div_mod(rest as int, 256);
            let p = pow256(i as nat);
            let q = pow256((i + 1) as nat);
            lemma_prefix_push(v@, byte, i as int);
            assert(rest * p == (rest2 as nat) * q + (byte as nat) * p) by (nonlinear_arith)
                requires
                    rest == 256 * rest2 + byte,
                    q == 256 * p,
            ;
            assert((rest2 as nat) * q < pow256((n - i - 1) as nat) * q ==> rest2
                < pow256((n - i - 1) as nat) || q == 0) by (nonlinear_arith);
            assert(rest2 * 256 + byte < pow256((n - i) as nat));
            assert(pow256((n - i) as nat) == 256 * pow256((n - i - 1) as nat));
            assert(rest2 < pow256((n - i - 1) as nat)) by (nonlinear_arith)
                requires
                    rest2 * 256 + byte < 256 * pow256((n - i - 1) as nat),
                    byte >= 0,
            ;
        }
        v.push(byte);
        rest = rest2;
        i = i + 1;
    }
    proof {
        lemma_pow256_pos(0);
    }
    v
}

/// Read back the number from at most sixteen little-endian bytes.
fn u128_of_bytes(v: &Vec<u8>) -> (x: u128)
    requires
        v@.len() <= 16,
    ensures
        x as nat == le_bytes_nat(v@),
{
    proof {
        lemma_pow256_values();
    }
    let n = v.len();
    let mut x: u128 = 0;
    let mut i: usize = n;
    proof {
        lemma_high_beyond(v@, n as int);
        assert((0 as nat) * pow256(n as nat) == 0) by (nonlinear_arith);
        assert(pow256(0) == 1);
    }
    while i > 0
        invariant
            i <= n,
            n == v@.len() <= 16,
            (x as nat) * pow256(i as nat) == high_nat(v@, i as int),
            x < pow256((n - i) as nat),
        decreases i,
    {
        let j = i - 1;
        let b = v[j];
        proof {
            lemma_pow256_values();
            let p = pow256(j as nat);
            let q = pow256(i as nat);
            // no overflow: the new accumulator stays below 256^(n - j) <= 256^16
            assert(x * 256 + b < 256 * pow256((n - i) as nat)) by (nonlinear_arith)
                requires
                    x < pow256((n - i) as nat),
                    b < 256,
            ;
            assert(256 * pow256((n - i) as nat) == pow256((n - j) as nat));
            lemma_pow256_mono((n - j) as nat, 16);
            // the accumulator tracks the high part one position further down
            lemma_high_step(v@, j as int);
            assert(byte_at(v@, j as int) == b);
            assert(((x as nat) * 256 + b) * p == (x as nat) * q + (b as nat) * p)
                by (nonlinear_arith)
                requires
                    q == 256 * p,
            ;
        }
        x = x * 256 + (b as u128);
        i = j;
    }
    proof {
        lemma_split(v@, 0);
        assert(pow256(0) == 1);
        assert((x as nat) * pow256(0) == x) by (nonlinear_arith)
            requires
                pow256(0) == 1,
        ;
    }
    x
}

impl BigUInt {
    /// The number this value denotes.
    pub open spec fn as_nat(self) -> nat {
        le_bytes_nat(self@)
    }

    /// Hand the value over to the runtime world unchanged.  The storage
    /// strategy is a private detail, so this is the identity on the
    /// number and its bytes.
    pub fn leak_to_rt(self) -> (r: BigUInt)
        ensures
            r@ == self@,
    {
        self
    }

    pub fn from_u8(value: u8) -> (r: BigUInt)
        ensures
            r.as_nat() == value,
            r@.len() == 1,
    {
        proof {
            lemma_pow256_values();
        }
        BigUInt { data: ConstBox::new(le_bytes_of(value as u128, 1)) }
    }

    pub fn from_u16(value: u16) -> (r: BigUInt)
        ensures
            r.as_nat() == value,
            r@.len() == 2,
    {
        proof {
            lemma_pow256_values();
        }
        BigUInt { data: ConstBox::new(le_bytes_of(value as u128, 2)) }
    }

    pub fn from_u32(value: u32) -> (r: BigUInt)
        ensures
            r.as_nat() == value,
            r@.len() == 4,
    {
        proof {
            lemma_pow256_values();
        }
        BigUInt { data: ConstBox::new(le_bytes_of(value as u128, 4)) }
    }

    pub fn from_u64(value: u64) -> (r: BigUInt)
        ensures
            r.as_nat() == value,
            r@.len() == 8,
    {
        proof {
            lemma_pow256_values();
        }
        BigUInt { data: ConstBox::new(le_bytes_of(value as u128, 8)) }
    }

    pub fn from_u128(value: u128) -> (r: BigUInt)
        ensures
            r.as_nat() == value,
            r@.len() == 16,
    {
        proof {
            lemma_pow256_values();
        }
        BigUInt { data: ConstBox::new(le_bytes_of(value, 16)) }
    }

    /// Add two big unsigned integers byte by byte with carry; the result
    /// spans the longer operand, one byte more when the final carry
    /// overflows it.
    pub fn add(self, rhs: BigUInt) -> (r: BigUInt)
        ensures
            r.as_nat() == self.as_nat() + rhs.as_nat(),
            r@.len() == if self.as_nat() + rhs.as_nat() < pow256(
                vstd::math::max(self@.len() as int, rhs@.len() as int) as nat,
            ) {
                vstd::math::max(self@.len() as int, rhs@.len() as int)
            } else {
                vstd::math::max(self@.len() as int, rhs@.len() as int) + 1
            },
    {
        let a = self.data.as_ref();
        let b = rhs.data.as_ref();
        let n = if a.len() >= b.len() {
            a.len()
        } else {
            b.len()
        };
        let mut out: Vec<u8> = Vec::new();
        let mut carry: u16 = 0;
        let mut i: usize = 0;
        while i < n
            invariant
                i <= n,
                n == vstd::math::max(a@.len() as int, b@.len() as int),
                out@.len() == i,
                carry <= 1,
                le_bytes_nat(out@) + (carry as nat) * pow256(i as nat) == prefix_nat(a@, i as int)
                    + prefix_nat(b@, i as int),
            decreases n - i,
        {
            let av: u16 = if i < a.len() {
                a[i] as u16
            } else {
                0
            };
            let bv: u16 = if i < b.len() {
                b[i] as u16
            } else {
                0
            };
            let sum: u16 = av + bv + carry;
            let byte: u8 = if sum >= 256 {
                (sum - 256) as u8
            } else {
                sum as u8
            };
            let new_carry: u16 = if sum >= 256 {
                1
            } else {
                0
            };
            proof {
                let p = pow256(i as nat);
                let q = pow256((i + 1) as nat);
                lemma_prefix_push(out@, byte, i as int);
                lemma_prefix_beyond(out@, i as int);
                assert(byte_at(a@, i as int) == av && byte_at(b@, i as int) == bv);
                assert((sum as nat) * p == (byte as nat) * p + (new_carry as nat) * q)
                    by (nonlinear_arith)
                    requires
                        sum == byte + 256 * new_carry,
                        q == 256 * p,
                ;
                assert(((av + bv + carry) as nat) * p == (av as nat) * p + (bv as nat) * p + (
                carry as nat) * p) by (nonlinear_arith);
            }
            out.push(byte);
            carry = new_carry;
            i = i + 1;
        }
        if carry == 1 {
            proof {
                lemma_prefix_push(out@, 1, n as int);
                lemma_prefix_beyond(out@, n as int);
            }
            out.push(1);
        }
        proof {
            lemma_prefix_beyond(a@, n as int);
            lemma_prefix_beyond(b@, n as int);
            lemma_le_bytes_bound(out@);
            lemma_pow256_pos(n as nat);
        }
        BigUInt { data: ConstBox::new(out) }
    }

    /// Compare the numbers two byte strings denote, scanning from the
    /// highest position down and reading padding as zero.
    pub fn cmp_value(&self, other: &BigUInt) -> (r: Ordering)
        ensures
            r == Ordering::Equal <==> self.as_nat() == other.as_nat(),
            r == Ordering::Less <==> self.as_nat() < other.as_nat(),
            r == Ordering::Greater <==> self.as_nat() > other.as_nat(),
    {
        let a = self.data.as_ref();
        let b = other.data.as_ref();
        let n = if a.len() >= b.len() {
            a.len()
        } else {
            b.len()
        };
        let mut i: usize = n;
        proof {
            lemma_high_beyond(a@, n as int);
            lemma_high_beyond(b@, n as int);
        }
        while i > 0
            invariant
                i <= n,
                n >= a@.len() && n >= b@.len(),
                a@ == self@ && b@ == other@,
                high_nat(a@, i as int) == high_nat(b@, i as int),
            decreases i,
        {
            let j = i - 1;
            let av: u8 = if j < a.len() {
                a[j]
            } else {
                0
            };
            let bv: u8 = if j < b.len() {
                b[j]
            } else {
                0
            };
            proof {
                lemma_high_step(a@, j as int);
                lemma_high_step(b@, j as int);
                assert(byte_at(a@, j as int) == av && byte_at(b@, j as int) == bv);
            }
            if av != bv {
                proof {
                    lemma_split(a@, j as int);
                    lemma_split(b@, j as int);
                    lemma_prefix_bound(a@, j as int);
                    lemma_prefix_bound(b@, j as int);
                    let p = pow256(j as nat);
                    if av < bv {
                        assert((av as nat) * p + p <= (bv as nat) * p) by (nonlinear_arith)
                            requires
                                av + 1 <= bv,
                                p >= 0,
                        ;
                        assert(self.as_nat() < other.as_nat());
                    } else {
                        assert((bv as nat) * p + p <= (av as nat) * p) by (nonlinear_arith)
                            requires
                                bv + 1 <= av,
                                p >= 0,
                        ;
                        assert(other.as_nat() < self.as_nat());
                    }
                }
                if av < bv {
                    return Ordering::Less;
                } else {
                    return Ordering::Greater;
                }
            }
            i = j;
        }
        proof {
            lemma_split(a@, 0);
            lemma_split(b@, 0);
        }
        Ordering::Equal
    }

    pub fn try_to_u8(&self) -> (r: Result<u8, TryFromBigUIntError>)
        ensures
            r is Ok <==> self@.len() <= 1,
            r matches Ok(v) ==> v as nat == self.as_nat(),
    {
        proof {
            lemma_pow256_values();
        }
        if self.data.as_ref().len() <= 1 {
            let x = u128_of_bytes(self.data.as_ref());
            proof {
                lemma_le_bytes_bound(self@);
                lemma_pow256_mono(self@.len(), 1);
            }
            Ok(x as u8)
        } else {
            Err(TryFromBigUIntError)
        }
    }

    pub fn try_to_u16(&self) -> (r: Result<u16, TryFromBigUIntError>)
        ensures
            r is Ok <==> self@.len() <= 2,
            r matches Ok(v) ==> v as nat == self.as_nat(),
    {
        proof {
            lemma_pow256_values();
        }
        if self.data.as_ref().len() <= 2 {
            let x = u128_of_bytes(self.data.as_ref());
            proof {
                lemma_le_bytes_bound(self@);
                lemma_pow256_mono(self@.len(), 2);
            }
            Ok(x as u16)
        } else {
            Err(TryFromBigUIntError)
        }
    }

    pub fn try_to_u32(&self) -> (r: Result<u32, TryFromBigUIntError>)
        ensures
            r is Ok <==> self@.len() <= 4,
            r matches Ok(v) ==> v as nat == self.as_nat(),
    {
        proof {
            lemma_pow256_values();
        }
        if self.data.as_ref().len() <= 4 {
            let x = u128_of_bytes(self.data.as_ref());
            proof {
                lemma_le_bytes_bound(self@);
                lemma_pow256_mono(self@.len(), 4);
            }
            Ok(x as u32)
        } else {
            Err(TryFromBigUIntError)
        }
    }

    pub fn try_to_u64(&self) -> (r: Result<u64, TryFromBigUIntError>)
        ensures
            r is Ok <==> self@.len() <= 8,
            r matches Ok(v) ==> v as nat == self.as_nat(),
    {
        proof {
            lemma_pow256_values();
        }
        if self.data.as_ref().len() <= 8 {
            let x = u128_of_bytes(self.data.as_ref());
            proof {
                lemma_le_bytes_bound(self@);
                lemma_pow256_mono(self@.len(), 8);
            }
            Ok(x as u64)
        } else {
            Err(TryFromBigUIntError)
        }
    }

    pub fn try_to_u128(&self) -> (r: Result<u128, TryFromBigUIntError>)
        ensures
            r is Ok <==> self@.len() <= 16,
            r matches Ok(v) ==> v as nat == self.as_nat(),
    {
        proof {
            lemma_pow256_values();
        }
        if self.data.as_ref().len() <= 16 {
            let x = u128_of_bytes(self.data.as_ref());
            Ok(x)
        } else {
            Err(TryFromBigUIntError)
        }
    }
}

impl PartialEq for BigUInt {
    /// Two big unsigned integers are equal when they denote the same
    /// number, whatever their padding.
    fn eq(&self, other: &BigUInt) -> (r: bool) {
        match self.cmp_value(other) {
            Ordering::Equal => true,
            _ => false,
        }
    }
}

impl vstd::std_specs::cmp::PartialEqSpecImpl for BigUInt {
    open spec fn obeys_eq_spec() -> bool {
        true
    }

    open spec fn eq_spec(&self, other: &BigUInt) -> bool {
        self.as_nat() == other.as_nat()
    }
}

} // verus!
