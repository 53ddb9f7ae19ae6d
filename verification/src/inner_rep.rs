//! The physical representation of a bounded integer: the value is stored
//! as an unsigned offset from the interval's start, in the smallest width
//! (0, 8, 16, 32, 64 or 128 bits) whose maximum is at least the interval's
//! size.  This module selects that width and encodes and decodes values.

use vstd::prelude::*;

use crate::interval::{sub_to_u128, Interval};

verus! {

/// The zero-width storage unit: an interval holding exactly one value
/// needs no runtime bits, and its offset is the constant zero.
#[derive(Clone, Copy, Debug)]
pub struct U0;

impl U0 {
    /// The only offset a zero-width representation can hold is zero.
    pub fn try_from(value: u128) -> (r: Option<U0>)
        ensures
            r is Some <==> value == 0,
    {
        if value == 0 {
            Some(U0)
        } else {
            None
        }
    }
}

/// A stored offset, tagged by the representation width that holds it.
#[derive(Clone, Copy, Debug)]
pub enum IntRepr {
    U0(U0),
    U8(u8),
    U16(u16),
    U32(u32),
    U64(u64),
    U128(u128),
}

impl IntRepr {
    /// The offset this representation stores.
    pub open spec fn offset(self) -> int {
        match self {
            IntRepr::U0(_) => 0,
            IntRepr::U8(x) => x as int,
            IntRepr::U16(x) => x as int,
            IntRepr::U32(x) => x as int,
            IntRepr::U64(x) => x as int,
            IntRepr::U128(x) => x as int,
        }
    }

    /// The width of this representation, in bits.
    pub open spec fn bits(self) -> int {
        match self {
            IntRepr::U0(_) => 0,
            IntRepr::U8(_) => 8,
            IntRepr::U16(_) => 16,
            IntRepr::U32(_) => 32,
            IntRepr::U64(_) => 64,
            IntRepr::U128(_) => 128,
        }
    }

    pub fn to_offset(&self) -> (r: u128)
        ensures
            r as int == self.offset(),
    {
        match *self {
            IntRepr::U0(_) => 0,
            IntRepr::U8(x) => x as u128,
            IntRepr::U16(x) => x as u128,
            IntRepr::U32(x) => x as u128,
            IntRepr::U64(x) => x as u128,
            IntRepr::U128(x) => x,
        }
    }
}

/// A representation of a stored offset, abstracted over its carrier.
/// `IntRepr` is the library's implementation.
pub trait IntRepresentation: Sized {
    spec fn offset_spec(&self) -> int;

    /// Decode the stored offset back to the logical value, relative to the
    /// interval start it was encoded against.
    fn to_i128(&self, start: i128) -> (v: i128)
        requires
            0 <= self.offset_spec(),
            start + self.offset_spec() <= i128::MAX,
        ensures
            v as int == start + self.offset_spec(),
    ;
}

impl IntRepresentation for IntRepr {
    open spec fn offset_spec(&self) -> int {
        self.offset()
    }

    fn to_i128(&self, start: i128) -> (v: i128) {
        let off = self.to_offset();
        let v = start.checked_add_unsigned(off);
        v.unwrap()
    }
}

/// True iff `w` is one of the representation widths the library offers.
pub open spec fn valid_width(w: int) -> bool {
    w == 0 || w == 8 || w == 16 || w == 32 || w == 64 || w == 128
}

/// The largest offset a representation of width `w` can hold.
pub open spec fn width_max(w: int) -> int {
    if w == 0 {
        0
    } else if w == 8 {
        0xff
    } else if w == 16 {
        0xffff
    } else if w == 32 {
        0xffff_ffff
    } else if w == 64 {
        0xffff_ffff_ffff_ffff
    } else {
        u128::MAX as int
    }
}

/// The width the representation selector chooses for an interval of the
/// given size: the smallest width whose maximum is at least `size`.
pub open spec fn width_for(size: int) -> int {
    if size == 0 {
        0
    } else if size <= 0xff {
        8
    } else if size <= 0xffff {
        16
    } else if size <= 0xffff_ffff {
        32
    } else if size <= 0xffff_ffff_ffff_ffff {
        64
    } else {
        128
    }
}

/// Minimality of the representation selector: the chosen width fits the
/// size, and no smaller width in the candidate set does.
pub proof fn lemma_width_minimal(size: int)
    requires
        0 <= size <= u128::MAX,
    ensures
        valid_width(width_for(size)),
        size <= width_max(width_for(size)),
        forall|w: int| valid_width(w) && size <= width_max(w) ==> width_for(size) <= w,
{
}

/// The size of an interval as an unsigned magnitude, `|end - start|`.
/// For a non-empty interval this is the distance the offsets must span.
pub fn range_size(r: Interval) -> (size: u128)
    ensures
        size as int == if r.start <= r.end {
            r.end - r.start
        } else {
            r.start - r.end
        },
{
    if r.start <= r.end {
        sub_to_u128(r.end, r.start)
    } else {
        sub_to_u128(r.start, r.end)
    }
}

/// The storage footprint, in bytes, of a bounded integer with the given
/// interval: the selected representation width divided by eight.
pub fn storage_bytes(interval: Interval) -> (n: usize)
    requires
        !interval.spec_is_empty(),
    ensures
        n * 8 == width_for(interval.spec_size()),
{
    let size = range_size(interval);
    if size == 0 {
        0
    } else if size <= 0xff {
        1
    } else if size <= 0xffff {
        2
    } else if size <= 0xffff_ffff {
        4
    } else if size <= 0xffff_ffff_ffff_ffff {
        8
    } else {
        16
    }
}

/// The offset a value encodes to, relative to its interval.
pub open spec fn spec_encode(interval: Interval, value: int) -> int {
    value - interval.start
}

/// The value an offset decodes to, relative to its interval.
pub open spec fn spec_decode(interval: Interval, offset: int) -> int {
    interval.start + offset
}

/// Round trip: decoding the encoding of any value of a non-empty interval
/// yields the value back, and the offset in between is within bounds.
pub proof fn lemma_encode_decode(interval: Interval, value: int)
    requires
        !interval.spec_is_empty(),
        interval.spec_contains(value),
    ensures
        spec_decode(interval, spec_encode(interval, value)) == value,
        0 <= spec_encode(interval, value) <= interval.spec_size(),
{
}

/// Encode a value of a non-empty interval as an offset from the
/// interval's start, stored in the width selected for the interval's
/// size.  A value outside the interval is a contract violation.
pub fn encode(interval: Interval, value: i128) -> (r: IntRepr)
    requires
        !interval.spec_is_empty(),
        interval.spec_contains(value as int),
    ensures
        r.offset() == spec_encode(interval, value as int),
        r.bits() == width_for(interval.spec_size()),
{
    let size = range_size(interval);
    let off = sub_to_u128(value, interval.start);
    if size == 0 {
        IntRepr::U0(U0)
    } else if size <= 0xff {
        IntRepr::U8(off as u8)
    } else if size <= 0xffff {
        IntRepr::U16(off as u16)
    } else if size <= 0xffff_ffff {
        IntRepr::U32(off as u32)
    } else if size <= 0xffff_ffff_ffff_ffff {
        IntRepr::U64(off as u64)
    } else {
        IntRepr::U128(off)
    }
}

/// Decode a stored offset of a non-empty interval back to the logical
/// value.  Total for every offset within the interval's size, and never
/// overflows the 128-bit signed domain.
pub fn decode(interval: Interval, repr: IntRepr) -> (v: i128)
    requires
        !interval.spec_is_empty(),
        0 <= repr.offset() <= interval.spec_size(),
    ensures
        v as int == spec_decode(interval, repr.offset()),
        interval.spec_contains(v as int),
{
    repr.to_i128(interval.start)
}

} // verus!
