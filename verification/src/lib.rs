//! A range-bounded integer library.
//!
//! The central type, [`Integer`](num::Integer), carries an inclusive
//! interval over the signed 128-bit domain and a value that is proven to
//! lie inside that interval at all times.  Arithmetic propagates the
//! operand intervals to a derived result interval, values are stored as
//! unsigned offsets in the smallest width that fits the interval, and
//! comparisons are resolved at the interval level whenever possible.

pub mod biguint;
pub mod cmp;
pub mod const_box;
pub mod divrem;
pub mod impls;
pub mod inner_rep;
pub mod interval;
pub mod num;
