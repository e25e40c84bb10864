//! Numbers as the engine holds them.
//!
//! A script number is a single-precision IEEE 754 value. The engine never
//! does arithmetic on one: it carries the 32-bit pattern, and decides on the
//! pattern alone what can be decided there (sign, zero, not-a-number, order).
//! Sums, products, quotients and decimal text are asked of the host.

use vstd::prelude::*;

verus! {

/// The pattern of the sign bit.
pub const SIGN: u32 = 0x8000_0000u32;

/// The largest magnitude that is not a NaN: the pattern of infinity.
pub const INFINITY: u32 = 0x7f80_0000u32;

/// The pattern of the number one.
pub const ONE: u32 = 0x3f80_0000u32;

/// A single-precision number, held as its bit pattern.
#[derive(Clone, Copy, Debug, PartialEq, Eq, Structural)]
pub struct Number {
    pub bits: u32,
}

impl Number {
    /// The pattern without its sign bit.
    pub open spec fn magnitude(self) -> int {
        self.bits as int % 0x8000_0000
    }

    /// Whether the sign bit is set.
    pub open spec fn negative(self) -> bool {
        self.bits >= SIGN
    }

    /// Not-a-number: all exponent bits set and a fraction that is not zero.
    pub open spec fn nan(self) -> bool {
        self.magnitude() > INFINITY
    }

    /// Positive or negative zero.
    pub open spec fn zero(self) -> bool {
        self.magnitude() == 0
    }

    /// An integer that orders the numbers as their values are ordered: the
    /// magnitude, negated under a set sign bit. Both zeros have rank 0.
    /// It says nothing of a NaN.
    pub open spec fn rank(self) -> int {
        if self.negative() {
            -self.magnitude()
        } else {
            self.magnitude()
        }
    }

    /// Numeric equality: a NaN equals nothing, the two zeros are equal.
    pub open spec fn same(self, other: Number) -> bool {
        !self.nan() && !other.nan() && self.rank() == other.rank()
    }

    /// Strictly less; false as soon as one side is a NaN.
    pub open spec fn below(self, other: Number) -> bool {
        !self.nan() && !other.nan() && self.rank() < other.rank()
    }

    /// Less or equal; false as soon as one side is a NaN.
    pub open spec fn at_most(self, other: Number) -> bool {
        !self.nan() && !other.nan() && self.rank() <= other.rank()
    }

    /// The number with its sign bit flipped.
    pub open spec fn opposite(self) -> Number {
        if self.negative() {
            Number { bits: (self.bits - SIGN) as u32 }
        } else {
            Number { bits: (self.bits + SIGN) as u32 }
        }
    }

    /// One for true, zero for false.
    pub open spec fn of_bool(b: bool) -> Number {
        if b {
            Number { bits: ONE }
        } else {
            Number { bits: 0 }
        }
    }

    pub fn from_bits(bits: u32) -> (n: Number)
        ensures
            n.bits == bits,
    {
        Number { bits }
    }

    pub fn to_bits(self) -> (bits: u32)
        ensures
            bits == self.bits,
    {
        self.bits
    }

    pub fn from_bool(b: bool) -> (n: Number)
        ensures
            n == Number::of_bool(b),
    {
        if b {
            Number { bits: ONE }
        } else {
            Number { bits: 0 }
        }
    }

    pub fn is_nan(self) -> (r: bool)
        ensures
            r == self.nan(),
    {
        self.bits % SIGN > INFINITY
    }

    pub fn is_zero(self) -> (r: bool)
        ensures
            r == self.zero(),
    {
        self.bits % SIGN == 0
    }

    fn order(self) -> (r: i64)
        ensures
            r == self.rank(),
    {
        let m: u32 = self.bits % SIGN;
        if self.bits >= SIGN {
            let z: i64 = 0;
            z - (m as i64)
        } else {
            m as i64
        }
    }

    pub fn equals(self, other: Number) -> (r: bool)
        ensures
            r == self.same(other),
    {
        !self.is_nan() && !other.is_nan() && self.order() == other.order()
    }

    pub fn less_than(self, other: Number) -> (r: bool)
        ensures
            r == self.below(other),
    {
        !self.is_nan() && !other.is_nan() && self.order() < other.order()
    }

    pub fn less_or_equal(self, other: Number) -> (r: bool)
        ensures
            r == self.at_most(other),
    {
        !self.is_nan() && !other.is_nan() && self.order() <= other.order()
    }

    pub fn negate(self) -> (n: Number)
        ensures
            n == self.opposite(),
    {
        if self.bits >= SIGN {
            Number { bits: self.bits - SIGN }
        } else {
            Number { bits: self.bits + SIGN }
        }
    }
}

} // verus!
