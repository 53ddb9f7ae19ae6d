//! The bounded integer scalar: a value together with the inclusive
//! interval it is guaranteed to lie in.  Construction is either proven in
//! range at the call site or checked at runtime; the value is stored as a
//! minimal-width offset from the interval's start.

use vstd::prelude::*;

use crate::inner_rep::{decode, encode, width_for, IntRepr};
use crate::interval::Interval;

verus! {

/// The failure of a runtime-checked conversion: the requested value does
/// not lie in the target interval.
#[derive(Clone, Copy, Debug, PartialEq, Eq, Structural)]
pub struct OutOfRange;

/// An integer guaranteed to lie within its declared interval.  The
/// interval travels with the value; the payload is the offset from the
/// interval's start, in the smallest width that fits the interval.
#[derive(Clone, Copy, Debug)]
pub struct Integer {
    pub interval: Interval,
    pub repr: IntRepr,
}

impl Integer {
    /// The logical value: the interval's start plus the stored offset.
    pub open spec fn value(self) -> int {
        self.interval.start + self.repr.offset()
    }

    /// Well-formedness: the interval is non-empty, the offset stays within
    /// the interval's size (so the value lies in the interval), and the
    /// offset is held in exactly the width selected for that size.
    pub open spec fn wf(self) -> bool {
        &&& !self.interval.spec_is_empty()
        &&& 0 <= self.repr.offset() <= self.interval.spec_size()
        &&& self.repr.bits() == width_for(self.interval.spec_size())
    }

    /// A well-formed integer's value lies in its interval.
    pub proof fn lemma_value_in_interval(self)
        requires
            self.wf(),
        ensures
            self.interval.spec_contains(self.value()),
    {
    }

    /// Construct from a value that is proven, at the call site, to lie in
    /// the (non-empty) interval.  Never fails.
    pub fn new(interval: Interval, value: i128) -> (r: Integer)
        requires
            !interval.spec_is_empty(),
            interval.spec_contains(value as int),
        ensures
            r.wf(),
            r.interval == interval,
            r.value() == value as int,
    {
        Integer { interval, repr: encode(interval, value) }
    }

    /// Construct the sole value of a single-point interval.  Needs no
    /// runtime payload at all.
    pub fn new_exact(interval: Interval) -> (r: Integer)
        requires
            interval.start == interval.end,
        ensures
            r.wf(),
            r.interval == interval,
            r.value() == interval.start as int,
    {
        Integer::new(interval, interval.start)
    }

    /// Runtime-checked construction: succeeds exactly when the value lies
    /// in the (non-empty) interval.
    pub fn try_from(interval: Interval, value: i128) -> (r: Result<Integer, OutOfRange>)
        requires
            !interval.spec_is_empty(),
        ensures
            r is Ok <==> interval.spec_contains(value as int),
            r matches Ok(n) ==> n.wf() && n.interval == interval && n.value() == value as int,
    {
        if interval.contains(value) {
            Ok(Integer::new(interval, value))
        } else {
            Err(OutOfRange)
        }
    }

    /// The logical value, decoded back into the signed 128-bit domain.
    pub fn get_value(&self) -> (v: i128)
        requires
            self.wf(),
        ensures
            v as int == self.value(),
    {
        decode(self.interval, self.repr)
    }

    /// The declared interval of this value.
    pub fn interval_of(&self) -> (r: Interval)
        ensures
            r == self.interval,
    {
        self.interval
    }

    /// Infallible widening: move the value to a target interval that is
    /// proven, at the call site, to contain every value of this one's.
    pub fn to(&self, target: Interval) -> (r: Integer)
        requires
            self.wf(),
            target.spec_contains_interval(self.interval),
        ensures
            r.wf(),
            r.interval == target,
            r.value() == self.value(),
    {
        Integer::new(target, self.get_value())
    }

    /// Runtime-checked conversion: succeeds exactly when this value lies
    /// in the (non-empty) target interval — in particular, whenever the
    /// target interval wholly contains this one's.
    pub fn try_to(&self, target: Interval) -> (r: Option<Integer>)
        requires
            self.wf(),
            !target.spec_is_empty(),
        ensures
            r is Some <==> target.spec_contains(self.value()),
            r matches Some(n) ==> n.wf() && n.interval == target && n.value() == self.value(),
    {
        match Integer::try_from(target, self.get_value()) {
            Ok(n) => Some(n),
            Err(_) => None,
        }
    }
}

/// A fixed-width primitive whose whole domain maps onto a canonical
/// bounded integer interval, enabling interop conversions.
pub trait IntegerRange: Sized {
    /// The canonical interval of the type: its `[MIN, MAX]`.
    spec fn spec_interval() -> Interval;

    /// The logical value of this primitive.
    spec fn spec_value(self) -> int;

    /// The canonical interval is non-empty and holds every value.
    proof fn lemma_range(self)
        ensures
            !Self::spec_interval().spec_is_empty(),
            Self::spec_interval().spec_contains(self.spec_value()),
    ;

    fn interval_of() -> (r: Interval)
        ensures
            r == Self::spec_interval(),
    ;

    fn get_value(self) -> (v: i128)
        ensures
            v as int == self.spec_value(),
    ;

    /// Promote the primitive to the bounded integer of its canonical
    /// interval.
    fn to_integer(self) -> (r: Integer)
        ensures
            r.wf(),
            r.interval == Self::spec_interval(),
            r.value() == self.spec_value(),
    ;
}

impl IntegerRange for u8 {
    open spec fn spec_interval() -> Interval {
        Interval { start: 0, end: 0xff }
    }

    open spec fn spec_value(self) -> int {
        self as int
    }

    proof fn lemma_range(self) {
    }

    fn interval_of() -> (r: Interval) {
        Interval { start: 0, end: 0xff }
    }

    fn get_value(self) -> (v: i128) {
        self as i128
    }

    fn to_integer(self) -> (r: Integer) {
        Integer::new(Self::interval_of(), self.get_value())
    }
}

impl IntegerRange for u16 {
    open spec fn spec_interval() -> Interval {
        Interval { start: 0, end: 0xffff }
    }

    open spec fn spec_value(self) -> int {
        self as int
    }

    proof fn lemma_range(self) {
    }

    fn interval_of() -> (r: Interval) {
        Interval { start: 0, end: 0xffff }
    }

    fn get_value(self) -> (v: i128) {
        self as i128
    }

    fn to_integer(self) -> (r: Integer) {
        Integer::new(Self::interval_of(), self.get_value())
    }
}

impl IntegerRange for u32 {
    open spec fn spec_interval() -> Interval {
        Interval { start: 0, end: 0xffff_ffff }
    }

    open spec fn spec_value(self) -> int {
        self as int
    }

    proof fn lemma_range(self) {
    }

    fn interval_of() -> (r: Interval) {
        Interval { start: 0, end: 0xffff_ffff }
    }

    fn get_value(self) -> (v: i128) {
        self as i128
    }

    fn to_integer(self) -> (r: Integer) {
        Integer::new(Self::interval_of(), self.get_value())
    }
}

impl IntegerRange for u64 {
    open spec fn spec_interval() -> Interval {
        Interval { start: 0, end: 0xffff_ffff_ffff_ffff }
    }

    open spec fn spec_value(self) -> int {
        self as int
    }

    proof fn lemma_range(self) {
    }

    fn interval_of() -> (r: Interval) {
        Interval { start: 0, end: 0xffff_ffff_ffff_ffff }
    }

    fn get_value(self) -> (v: i128) {
        self as i128
    }

    fn to_integer(self) -> (r: Integer) {
        Integer::new(Self::interval_of(), self.get_value())
    }
}

impl IntegerRange for i8 {
    open spec fn spec_interval() -> Interval {
        Interval { start: -0x80i128, end: 0x7f }
    }

    open spec fn spec_value(self) -> int {
        self as int
    }

    proof fn lemma_range(self) {
    }

    fn interval_of() -> (r: Interval) {
        Interval { start: -0x80i128, end: 0x7f }
    }

    fn get_value(self) -> (v: i128) {
        self as i128
    }

    fn to_integer(self) -> (r: Integer) {
        Integer::new(Self::interval_of(), self.get_value())
    }
}

impl IntegerRange for i16 {
    open spec fn spec_interval() -> Interval {
        Interval { start: -0x8000i128, end: 0x7fff }
    }

    open spec fn spec_value(self) -> int {
        self as int
    }

    proof fn lemma_range(self) {
    }

    fn interval_of() -> (r: Interval) {
        Interval { start: -0x8000i128, end: 0x7fff }
    }

    fn get_value(self) -> (v: i128) {
        self as i128
    }

    fn to_integer(self) -> (r: Integer) {
        Integer::new(Self::interval_of(), self.get_value())
    }
}

impl IntegerRange for i32 {
    open spec fn spec_interval() -> Interval {
        Interval { start: -0x8000_0000i128, end: 0x7fff_ffff }
    }

    open spec fn spec_value(self) -> int {
        self as int
    }

    proof fn lemma_range(self) {
    }

    fn interval_of() -> (r: Interval) {
        Interval { start: -0x8000_0000i128, end: 0x7fff_ffff }
    }

    fn get_value(self) -> (v: i128) {
        self as i128
    }

    fn to_integer(self) -> (r: Integer) {
        Integer::new(Self::interval_of(), self.get_value())
    }
}

impl IntegerRange for i64 {
    open spec fn spec_interval() -> Interval {
        Interval { start: -0x8000_0000_0000_0000i128, end: 0x7fff_ffff_ffff_ffff }
    }

    open spec fn spec_value(self) -> int {
        self as int
    }

    proof fn lemma_range(self) {
    }

    fn interval_of() -> (r: Interval) {
        Interval { start: -0x8000_0000_0000_0000i128, end: 0x7fff_ffff_ffff_ffff }
    }

    fn get_value(self) -> (v: i128) {
        self as i128
    }

    fn to_integer(self) -> (r: Integer) {
        Integer::new(Self::interval_of(), self.get_value())
    }
}

impl IntegerRange for i128 {
    open spec fn spec_interval() -> Interval {
        Interval { start: i128::MIN, end: i128::MAX }
    }

    open spec fn spec_value(self) -> int {
        self as int
    }

    proof fn lemma_range(self) {
    }

    fn interval_of() -> (r: Interval) {
        Interval { start: i128::MIN, end: i128::MAX }
    }

    fn get_value(self) -> (v: i128) {
        self
    }

    fn to_integer(self) -> (r: Integer) {
        Integer::new(Self::interval_of(), self.get_value())
    }
}

} // verus!
