//! Single-precision game values, held by their IEEE-754 bit patterns.
//!
//! The game hands out positions, damage, motion frames and stick tilts as
//! `f32`.  The library keeps such a value as its 32 raw bits and compares two
//! of them exactly as IEEE-754 does: a NaN compares false with everything,
//! `-0.0` equals `+0.0`, and every other pair is ordered by its value.  The
//! order of non-NaN values is the order of their signed magnitudes: the low
//! 31 bits of a non-negative value grow with the value, and those of a
//! negative one grow with its distance below zero.
use vstd::prelude::*;

verus! {

/// Bits of `f32` 0.0.
pub const ZERO: u32 = 0x0000_0000;
/// Bits of `f32` 1.0.
pub const ONE: u32 = 0x3F80_0000;
/// Bits of `f32` -1.0.
pub const MINUS_ONE: u32 = 0xBF80_0000;
/// Bits of `f32` 0.0001, the scale that hides the fighter inside its boss.
pub const HIDDEN_SCALE: u32 = 0x38D1_B717;
/// Bits of `f32` 0.001, the dead zone of a stick.
pub const STICK_DEAD_ZONE: u32 = 0x3A83_126F;
/// Bits of `f32` -0.001.
pub const MINUS_STICK_DEAD_ZONE: u32 = 0xBA83_126F;

/// A single-precision value, held by its IEEE-754 bits.
#[derive(Clone, Copy, Debug, PartialEq, Eq, Structural)]
pub struct Measure {
    pub bits: u32,
}

impl Measure {
    /// The low 31 bits: the magnitude, ordered as the absolute value is.
    pub open spec fn magnitude(self) -> int {
        (self.bits % 0x8000_0000) as int
    }

    /// The sign bit.
    pub open spec fn sign_set(self) -> bool {
        self.bits >= 0x8000_0000
    }

    /// All exponent bits set and a non-zero fraction.
    pub open spec fn is_nan(self) -> bool {
        self.magnitude() > 0x7F80_0000
    }

    /// An integer that orders non-NaN values as their real values are ordered,
    /// and that is zero for both zeros.
    pub open spec fn rank(self) -> int {
        if self.sign_set() {
            -self.magnitude()
        } else {
            self.magnitude()
        }
    }

    /// IEEE `self >= other`.
    pub open spec fn at_least(self, other: Measure) -> bool {
        !self.is_nan() && !other.is_nan() && self.rank() >= other.rank()
    }

    /// IEEE `self <= other`.
    pub open spec fn at_most(self, other: Measure) -> bool {
        !self.is_nan() && !other.is_nan() && self.rank() <= other.rank()
    }

    /// IEEE `self < other`.
    pub open spec fn below(self, other: Measure) -> bool {
        !self.is_nan() && !other.is_nan() && self.rank() < other.rank()
    }

    /// IEEE `self == other`.
    pub open spec fn equals(self, other: Measure) -> bool {
        !self.is_nan() && !other.is_nan() && self.rank() == other.rank()
    }

    /// The value with these bits.
    pub fn from_bits(bits: u32) -> (m: Measure)
        ensures
            m.bits == bits,
    {
        Measure { bits }
    }

    fn exec_rank(self) -> (r: i64)
        ensures
            r == self.rank(),
    {
        let magnitude: u32 = self.bits % 0x8000_0000;
        if self.bits >= 0x8000_0000 {
            -(magnitude as i64)
        } else {
            magnitude as i64
        }
    }

    /// Whether the value is a NaN.
    pub fn nan(self) -> (r: bool)
        ensures
            r == self.is_nan(),
    {
        self.bits % 0x8000_0000 > 0x7F80_0000
    }

    /// IEEE `self >= other`.
    pub fn ge(self, other: Measure) -> (r: bool)
        ensures
            r == self.at_least(other),
    {
        !self.nan() && !other.nan() && self.exec_rank() >= other.exec_rank()
    }

    /// IEEE `self <= other`.
    pub fn le(self, other: Measure) -> (r: bool)
        ensures
            r == self.at_most(other),
    {
        !self.nan() && !other.nan() && self.exec_rank() <= other.exec_rank()
    }

    /// IEEE `self < other`.
    pub fn lt(self, other: Measure) -> (r: bool)
        ensures
            r == self.below(other),
    {
        !self.nan() && !other.nan() && self.exec_rank() < other.exec_rank()
    }

    /// IEEE `self == other`.
    pub fn eq_value(self, other: Measure) -> (r: bool)
        ensures
            r == self.equals(other),
    {
        !self.nan() && !other.nan() && self.exec_rank() == other.exec_rank()
    }
}

/// The value with these bits.
pub open spec fn m(bits: u32) -> Measure {
    Measure { bits }
}

/// Comparisons on the bits behave as comparisons of real numbers: `<=` and
/// `>=` are converse, `<` is `<=` without equality, and a value equals itself
/// exactly when it is not a NaN.
pub proof fn lemma_measure_order(a: Measure, b: Measure)
    ensures
        a.at_least(b) == b.at_most(a),
        a.below(b) == (a.at_most(b) && !a.equals(b)),
        a.equals(b) == (a.at_most(b) && a.at_least(b)),
        a.equals(a) == !a.is_nan(),
        a.equals(b) == b.equals(a),
{
}

/// Every non-NaN value is ordered with every other non-NaN value.
pub proof fn lemma_measure_total(a: Measure, b: Measure)
    requires
        !a.is_nan(),
        !b.is_nan(),
    ensures
        a.at_most(b) || b.at_most(a),
{
}

} // verus!
