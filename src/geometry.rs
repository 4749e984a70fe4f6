use vstd::prelude::*;

verus! {

/// Bits of an IEEE-754 binary32 value that hold its exponent.
pub const EXPONENT_MASK: u32 = 0x7f80_0000;

/// Bits of an IEEE-754 binary32 value that hold its mantissa.
pub const MANTISSA_MASK: u32 = 0x007f_ffff;

/// Every bit of an IEEE-754 binary32 value but the sign.
pub const MAGNITUDE_MASK: u32 = 0x7fff_ffff;

/// Whether the binary32 value with bit pattern `b` is a NaN.
pub open spec fn is_nan_bits(b: u32) -> bool {
    (b & EXPONENT_MASK) == EXPONENT_MASK && (b & MANTISSA_MASK) != 0
}

/// Whether the binary32 value with bit pattern `b` is a zero of either sign.
pub open spec fn is_zero_bits(b: u32) -> bool {
    (b & MAGNITUDE_MASK) == 0
}

/// Float equality on bit patterns: a NaN equals nothing, the two zeros are
/// equal, and otherwise two values are equal when their bits are.
pub open spec fn coord_eq(a: u32, b: u32) -> bool {
    !is_nan_bits(a) && !is_nan_bits(b) && (a == b || (is_zero_bits(a) && is_zero_bits(b)))
}

/// Float equality of two coordinates given by their bit patterns.
pub fn coords_equal(a: u32, b: u32) -> (r: bool)
    ensures
        r == coord_eq(a, b),
{
    let a_nan = (a & EXPONENT_MASK) == EXPONENT_MASK && (a & MANTISSA_MASK) != 0;
    let b_nan = (b & EXPONENT_MASK) == EXPONENT_MASK && (b & MANTISSA_MASK) != 0;
    !a_nan && !b_nan && (a == b || ((a & MAGNITUDE_MASK) == 0 && (b & MAGNITUDE_MASK) == 0))
}

/// A 2D vector of binary32 floats, each coordinate held as its bit pattern.
///
/// The library stores, copies and compares these values and never does
/// arithmetic on them; the bit pattern keeps every float exactly.
#[derive(Clone, Copy, PartialEq, Eq, Debug, Structural)]
pub struct Vec2 {
    pub x: u32,
    pub y: u32,
}

impl Vec2 {
    /// Float equality of both coordinates.
    pub open spec fn same_as(self, other: Vec2) -> bool {
        coord_eq(self.x, other.x) && coord_eq(self.y, other.y)
    }

    /// The vector (0.0, 0.0).
    pub fn zero() -> (r: Vec2)
        ensures
            r == (Vec2 { x: 0, y: 0 }),
    {
        Vec2 { x: 0, y: 0 }
    }

    /// Whether the two vectors are equal as floats, coordinate by coordinate.
    pub fn equals(&self, other: &Vec2) -> (r: bool)
        ensures
            r == self.same_as(*other),
    {
        coords_equal(self.x, other.x) && coords_equal(self.y, other.y)
    }
}

} // verus!
