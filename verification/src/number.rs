//! Single-precision numbers, carried by their bit patterns.

use vstd::prelude::*;

verus! {

/// A single-precision floating-point number, held as its IEEE 754 bit pattern.
///
/// Nothing in this crate calculates with these numbers: they are handed in,
/// stored, compared and handed out. Arithmetic is done by the function that the
/// owner of a [`crate::store::FontStore`] supplies.
#[derive(Clone, Copy, Debug)]
pub struct Float32 {
    /// Sign (1 bit), exponent (8 bits), fraction (23 bits).
    pub bits: u32,
}

impl Float32 {
    /// The bit pattern without its sign.
    pub open spec fn magnitude(self) -> u32 {
        self.bits % 0x8000_0000
    }

    /// Exponent all ones and a fraction that is not zero.
    pub open spec fn is_nan(self) -> bool {
        self.magnitude() > 0x7F80_0000
    }

    /// Comparison as numbers: not-a-number differs from everything, itself
    /// included, and the two zeros are equal.
    pub open spec fn same_number(self, other: Self) -> bool {
        &&& !self.is_nan()
        &&& !other.is_nan()
        &&& self.bits == other.bits || (self.magnitude() == 0 && other.magnitude() == 0)
    }

    /// Greater than zero (infinity is, not-a-number is not).
    pub open spec fn is_positive(self) -> bool {
        0 < self.bits <= 0x7F80_0000
    }

    /// The number zero.
    pub fn zero() -> (x: Self)
        ensures
            x == (Float32 { bits: 0 }),
    {
        Float32 { bits: 0 }
    }

    /// The number one.
    pub fn one() -> (x: Self)
        ensures
            x == (Float32 { bits: 0x3F80_0000 }),
    {
        Float32 { bits: 0x3F80_0000 }
    }
}

impl PartialEq for Float32 {
    fn eq(&self, other: &Self) -> (equal: bool) {
        let a: u32 = self.bits % 0x8000_0000;
        let b: u32 = other.bits % 0x8000_0000;
        a <= 0x7F80_0000 && b <= 0x7F80_0000 && (self.bits == other.bits || (a == 0 && b == 0))
    }
}

impl vstd::std_specs::cmp::PartialEqSpecImpl for Float32 {
    open spec fn obeys_eq_spec() -> bool {
        true
    }

    open spec fn eq_spec(&self, other: &Self) -> bool {
        self.same_number(*other)
    }
}

/// A pair of numbers: a size, or an offset to the right and down.
#[derive(Clone, Copy, Debug)]
pub struct Vec2 {
    /// Horizontal part.
    pub x: Float32,
    /// Vertical part.
    pub y: Float32,
}

impl Vec2 {
    /// Both parts are the same numbers.
    pub open spec fn same_numbers(self, other: Self) -> bool {
        self.x.same_number(other.x) && self.y.same_number(other.y)
    }
}

impl PartialEq for Vec2 {
    fn eq(&self, other: &Self) -> (equal: bool) {
        self.x == other.x && self.y == other.y
    }
}

impl vstd::std_specs::cmp::PartialEqSpecImpl for Vec2 {
    open spec fn obeys_eq_spec() -> bool {
        true
    }

    open spec fn eq_spec(&self, other: &Self) -> bool {
        self.same_numbers(*other)
    }
}

} // verus!
