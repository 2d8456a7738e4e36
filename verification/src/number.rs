//! IEEE 754 binary64 quantities, held as bit patterns.

use vstd::prelude::*;

verus! {

/// The sign bit of a binary64 bit pattern.
pub const SIGN_UNIT: u64 = 0x8000_0000_0000_0000;

/// The bit pattern of positive infinity; every larger magnitude is a NaN.
pub const INFINITY_BITS: u64 = 0x7FF0_0000_0000_0000;

/// The bit pattern of 1.
pub const ONE_BITS: u64 = 0x3FF0_0000_0000_0000;

/// The bit pattern of 12.
pub const TWELVE_BITS: u64 = 0x4028_0000_0000_0000;

/// The bit pattern of 100.
pub const HUNDRED_BITS: u64 = 0x4059_0000_0000_0000;

/// A binary64 quantity: an amount of money, a rate or a growth factor.
///
/// The value is identified with its bit pattern: one sign bit, then the
/// exponent and fraction, which together form the magnitude.
#[derive(Clone, Copy, Debug)]
pub struct Number {
    pub bits: u64,
}

impl Number {
    /// Whether the sign bit is set.
    pub open spec fn sign(self) -> bool {
        self.bits >= SIGN_UNIT
    }

    /// Exponent and fraction taken as one integer. Among values that are not
    /// NaN, a larger magnitude is a larger absolute value.
    pub open spec fn magnitude(self) -> int {
        if self.bits >= SIGN_UNIT {
            self.bits - SIGN_UNIT
        } else {
            self.bits as int
        }
    }

    /// Not a number: all exponent bits set and a nonzero fraction.
    pub open spec fn nan(self) -> bool {
        self.magnitude() > INFINITY_BITS
    }

    /// Positive or negative infinity.
    pub open spec fn infinite(self) -> bool {
        self.magnitude() == INFINITY_BITS
    }

    /// Neither NaN nor infinite.
    pub open spec fn finite(self) -> bool {
        self.magnitude() < INFINITY_BITS
    }

    /// Position on the number line: the magnitude, negated under a set sign.
    /// Both zeros have rank 0. Meaningful for values that are not NaN.
    pub open spec fn rank(self) -> int {
        if self.sign() {
            -self.magnitude()
        } else {
            self.magnitude()
        }
    }

    /// The numeric order `self < other`: false whenever either side is NaN.
    pub open spec fn below(self, other: Number) -> bool {
        !self.nan() && !other.nan() && self.rank() < other.rank()
    }

    /// The numeric order `self <= other`: false whenever either side is NaN.
    pub open spec fn not_above(self, other: Number) -> bool {
        !self.nan() && !other.nan() && self.rank() <= other.rank()
    }

    /// `self > 0`.
    pub open spec fn positive(self) -> bool {
        Number::zero_value().below(self)
    }

    /// Positive zero.
    pub open spec fn zero_value() -> Number {
        Number { bits: 0 }
    }

    /// One.
    pub open spec fn one_value() -> Number {
        Number { bits: ONE_BITS }
    }

    /// Twelve.
    pub open spec fn twelve_value() -> Number {
        Number { bits: TWELVE_BITS }
    }

    /// One hundred.
    pub open spec fn hundred_value() -> Number {
        Number { bits: HUNDRED_BITS }
    }

    /// The value with the given bit pattern.
    pub fn from_bits(bits: u64) -> (r: Number)
        ensures
            r.bits == bits,
    {
        Number { bits }
    }

    /// The bit pattern of the value.
    pub fn to_bits(&self) -> (r: u64)
        ensures
            r == self.bits,
    {
        self.bits
    }

    /// Positive zero.
    pub fn zero() -> (r: Number)
        ensures
            r == Number::zero_value(),
    {
        Number { bits: 0 }
    }

    /// One.
    pub fn one() -> (r: Number)
        ensures
            r == Number::one_value(),
    {
        Number { bits: ONE_BITS }
    }

    /// Twelve, the number of periods in a year.
    pub fn twelve() -> (r: Number)
        ensures
            r == Number::twelve_value(),
    {
        Number { bits: TWELVE_BITS }
    }

    /// One hundred, the number of percentage points in a whole.
    pub fn hundred() -> (r: Number)
        ensures
            r == Number::hundred_value(),
    {
        Number { bits: HUNDRED_BITS }
    }

    fn magnitude_bits(&self) -> (r: u64)
        ensures
            r == self.magnitude(),
    {
        if self.bits >= SIGN_UNIT {
            self.bits - SIGN_UNIT
        } else {
            self.bits
        }
    }

    /// Whether the value is NaN.
    pub fn is_nan(&self) -> (r: bool)
        ensures
            r == self.nan(),
    {
        self.magnitude_bits() > INFINITY_BITS
    }

    /// Whether the value is positive or negative infinity.
    pub fn is_infinite(&self) -> (r: bool)
        ensures
            r == self.infinite(),
    {
        self.magnitude_bits() == INFINITY_BITS
    }

    /// Whether the value is neither NaN nor infinite.
    pub fn is_finite(&self) -> (r: bool)
        ensures
            r == self.finite(),
    {
        self.magnitude_bits() < INFINITY_BITS
    }

    /// Whether `self < other` in the numeric order.
    pub fn less_than(&self, other: &Number) -> (r: bool)
        ensures
            r == self.below(*other),
    {
        if self.is_nan() || other.is_nan() {
            return false;
        }
        let a: u64 = self.magnitude_bits();
        let b: u64 = other.magnitude_bits();
        let a_signed: bool = self.bits >= SIGN_UNIT;
        let b_signed: bool = other.bits >= SIGN_UNIT;
        if a_signed {
            if b_signed {
                b < a
            } else {
                a > 0 || b > 0
            }
        } else {
            if b_signed {
                false
            } else {
                a < b
            }
        }
    }

    /// Whether `self <= other` in the numeric order.
    pub fn at_most(&self, other: &Number) -> (r: bool)
        ensures
            r == self.not_above(*other),
    {
        if self.is_nan() || other.is_nan() {
            return false;
        }
        !other.less_than(self)
    }

    /// Whether `self > 0`.
    pub fn is_positive(&self) -> (r: bool)
        ensures
            r == self.positive(),
    {
        0 < self.bits && self.bits <= INFINITY_BITS
    }
}

} // verus!
