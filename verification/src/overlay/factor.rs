//! Magnification factors.
//!
//! A factor is a single-precision number kept as its IEEE 754 bit pattern.
//! Sign and magnitude order the patterns exactly as the numbers are ordered,
//! so every comparison a mode makes is integer work; only multiplying factors
//! needs floating point, and that belongs to the caller.

use vstd::prelude::*;

verus! {

/// Bit pattern of `1.0`.
pub const ONE_BITS: u32 = 0x3f80_0000;

/// Bit pattern of `1.25`.
pub const DEFAULT_STEP_BITS: u32 = 0x3fa0_0000;

/// Bit pattern of `16.0`.
pub const DEFAULT_MAX_BITS: u32 = 0x4180_0000;

/// Bit pattern of positive infinity.
pub const INFINITY_BITS: u32 = 0x7f80_0000;

/// Weight of one step of the exponent field.
pub const EXPONENT_UNIT: u32 = 0x0080_0000;

/// A single-precision number.
#[derive(Clone, Copy, PartialEq, Eq, Structural, Hash, Debug)]
pub struct Factor {
    pub bits: u32,
}

impl Factor {
    /// Magnitude part of the pattern, in the order of absolute values.
    pub open spec fn magnitude(self) -> int {
        self.bits as int % 0x8000_0000
    }

    pub open spec fn nan(self) -> bool {
        self.magnitude() > INFINITY_BITS
    }

    pub open spec fn finite(self) -> bool {
        self.magnitude() < INFINITY_BITS
    }

    /// Position on the number line: `a < b` as numbers exactly when
    /// `a.key() < b.key()`, for patterns that are numbers. Both zeros share
    /// one key.
    pub open spec fn key(self) -> int {
        if self.bits >= 0x8000_0000 {
            -self.magnitude()
        } else {
            self.magnitude()
        }
    }

    /// Numeric `<`: false when either side is not a number.
    pub open spec fn lt(self, other: Factor) -> bool {
        !self.nan() && !other.nan() && self.key() < other.key()
    }

    /// Numeric `==`: false when either side is not a number.
    pub open spec fn same(self, other: Factor) -> bool {
        !self.nan() && !other.nan() && self.key() == other.key()
    }

    pub open spec fn one_spec() -> Factor {
        Factor { bits: ONE_BITS }
    }

    /// The exponent field of a positive number.
    pub open spec fn exponent(self) -> int {
        self.magnitude() / EXPONENT_UNIT as int
    }

    /// The fraction field of a number.
    pub open spec fn fraction(self) -> int {
        self.magnitude() % EXPONENT_UNIT as int
    }

    pub fn from_bits(bits: u32) -> (r: Self)
        ensures
            r.bits == bits,
    {
        Self { bits }
    }

    pub fn to_bits(self) -> (r: u32)
        ensures
            r == self.bits,
    {
        self.bits
    }

    /// `1.0`: no magnification.
    pub fn one() -> (r: Self)
        ensures
            r == Factor::one_spec(),
    {
        Self { bits: ONE_BITS }
    }

    fn mag(self) -> (r: u32)
        ensures
            r == self.magnitude(),
    {
        self.bits % 0x8000_0000
    }

    pub fn is_nan(self) -> (r: bool)
        ensures
            r == self.nan(),
    {
        self.mag() > INFINITY_BITS
    }

    pub fn is_finite(self) -> (r: bool)
        ensures
            r == self.finite(),
    {
        self.mag() < INFINITY_BITS
    }

    fn position(self) -> (r: i64)
        ensures
            r == self.key(),
    {
        if self.bits >= 0x8000_0000 {
            -(self.mag() as i64)
        } else {
            self.mag() as i64
        }
    }

    /// Numeric `<`.
    pub fn less_than(self, other: Factor) -> (r: bool)
        ensures
            r == self.lt(other),
    {
        !self.is_nan() && !other.is_nan() && self.position() < other.position()
    }

    /// Numeric `==`.
    pub fn equals(self, other: Factor) -> (r: bool)
        ensures
            r == self.same(other),
    {
        !self.is_nan() && !other.is_nan() && self.position() == other.position()
    }

    /// The larger of two numbers; a side that is not a number is ignored.
    pub open spec fn larger_spec(self, other: Factor) -> Factor {
        if self.nan() || self.lt(other) {
            other
        } else {
            self
        }
    }

    /// The larger of two numbers; a side that is not a number is ignored.
    pub fn larger(self, other: Factor) -> (r: Factor)
        ensures
            r == self.larger_spec(other),
    {
        if self.is_nan() || self.less_than(other) {
            other
        } else {
            self
        }
    }

    /// The number of `min..=max` nearest to `self`; not-a-number stays.
    pub open spec fn clamped(self, min: Factor, max: Factor) -> Factor {
        if self.lt(min) {
            min
        } else if max.lt(self) {
            max
        } else {
            self
        }
    }

    /// The number of `min..=max` nearest to `self`; not-a-number stays.
    pub fn clamp(self, min: Factor, max: Factor) -> (r: Factor)
        requires
            !min.nan(),
            !max.nan(),
            !max.lt(min),
        ensures
            r == self.clamped(min, max),
            !self.nan() ==> !r.lt(min) && !max.lt(r),
    {
        if self.less_than(min) {
            min
        } else if max.less_than(self) {
            max
        } else {
            self
        }
    }

    /// Twice a finite number of at least 1.0.
    pub open spec fn doubled_spec(self) -> Factor {
        if self.bits + EXPONENT_UNIT >= INFINITY_BITS {
            Factor { bits: INFINITY_BITS }
        } else {
            Factor { bits: (self.bits + EXPONENT_UNIT) as u32 }
        }
    }

    /// Twice a finite number of at least 1.0: the exponent grows by one and
    /// the fraction stays; past the largest finite number it is infinity.
    pub fn doubled(self) -> (r: Factor)
        requires
            self.finite(),
            !self.lt(Factor::one_spec()),
        ensures
            r == self.doubled_spec(),
            self.exponent() < 254 ==> r.exponent() == self.exponent() + 1 && r.fraction()
                == self.fraction() && r.finite(),
            self.exponent() >= 254 ==> r.bits == INFINITY_BITS,
            self.lt(r),
    {
        if self.bits + EXPONENT_UNIT >= INFINITY_BITS {
            Factor { bits: INFINITY_BITS }
        } else {
            Factor { bits: self.bits + EXPONENT_UNIT }
        }
    }

    /// The factor the resampler works with: `1.0` unless positive.
    pub fn effective(self) -> (r: Factor)
        ensures
            r == (if (Factor { bits: 0 }).lt(self) {
                self
            } else {
                Factor::one_spec()
            }),
    {
        if (Factor { bits: 0 }).less_than(self) {
            self
        } else {
            Factor::one()
        }
    }
}

} // verus!
