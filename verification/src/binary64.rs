//! IEEE 754 binary64 numbers by their 64-bit encodings, with the comparisons
//! of the standard decided on the encodings alone.

use vstd::prelude::*;

verus! {

/// The encoding's sign bit.
pub const SIGN_BIT: u64 = 0x8000_0000_0000_0000;

/// The magnitude bits of an infinity: every larger magnitude encodes a NaN.
pub const INFINITY_MAGNITUDE: u64 = 0x7FF0_0000_0000_0000;

/// A binary64 number: one sign bit, then the 63 magnitude bits (exponent and
/// fraction). `==` compares encodings: it tells the two zeros apart and finds
/// a NaN equal to itself.
#[derive(Clone, Copy, Debug, PartialEq, Eq, Structural)]
pub struct Binary64 {
    pub bits: u64,
}

impl Binary64 {
    /// True when the sign bit is set.
    pub open spec fn sign(self) -> bool {
        self.bits >= SIGN_BIT
    }

    /// The encoding without its sign bit.
    pub open spec fn magnitude(self) -> int {
        if self.sign() {
            self.bits - SIGN_BIT
        } else {
            self.bits as int
        }
    }

    /// Not a number: the exponent is all ones and the fraction is not zero.
    pub open spec fn nan(self) -> bool {
        self.magnitude() > INFINITY_MAGNITUDE
    }

    /// Neither a NaN nor an infinity.
    pub open spec fn finite(self) -> bool {
        self.magnitude() < INFINITY_MAGNITUDE
    }

    /// Where the number stands among the numbers that are not NaN: the
    /// magnitude bits grow with the absolute value, so the signed magnitude
    /// orders the numbers as the standard does. Both zeros stand at 0.
    pub open spec fn rank(self) -> int {
        if self.sign() {
            -self.magnitude()
        } else {
            self.magnitude()
        }
    }

    /// The standard's `>`: false as soon as one side is a NaN.
    pub open spec fn exceeds(self, other: Binary64) -> bool {
        !self.nan() && !other.nan() && self.rank() > other.rank()
    }

    /// Either zero.
    pub open spec fn zero_valued(self) -> bool {
        self.magnitude() == 0
    }

    /// Strictly greater than zero.
    pub open spec fn positive(self) -> bool {
        !self.nan() && self.rank() > 0
    }

    /// Strictly less than zero.
    pub open spec fn negative(self) -> bool {
        !self.nan() && self.rank() < 0
    }

    /// The number with the given encoding.
    pub fn from_bits(bits: u64) -> (number: Binary64)
        ensures
            number.bits == bits,
    {
        Binary64 { bits }
    }

    /// The encoding of the number.
    pub fn to_bits(&self) -> (bits: u64)
        ensures
            bits == self.bits,
    {
        self.bits
    }

    /// Positive zero.
    pub fn zero() -> (number: Binary64)
        ensures
            number.bits == 0,
    {
        Binary64 { bits: 0 }
    }

    fn sign_bit(&self) -> (set: bool)
        ensures
            set == self.sign(),
    {
        self.bits >= SIGN_BIT
    }

    fn magnitude_bits(&self) -> (magnitude: u64)
        ensures
            magnitude == self.magnitude(),
            magnitude < SIGN_BIT,
    {
        if self.bits >= SIGN_BIT {
            self.bits - SIGN_BIT
        } else {
            self.bits
        }
    }

    /// True for a NaN.
    pub fn is_nan(&self) -> (answer: bool)
        ensures
            answer == self.nan(),
    {
        self.magnitude_bits() > INFINITY_MAGNITUDE
    }

    /// True for a number that is neither a NaN nor an infinity.
    pub fn is_finite(&self) -> (answer: bool)
        ensures
            answer == self.finite(),
    {
        self.magnitude_bits() < INFINITY_MAGNITUDE
    }

    /// `self == 0.0`.
    pub fn is_zero(&self) -> (answer: bool)
        ensures
            answer == self.zero_valued(),
    {
        self.magnitude_bits() == 0
    }

    /// `self > 0.0`.
    pub fn is_positive(&self) -> (answer: bool)
        ensures
            answer == self.positive(),
    {
        let magnitude: u64 = self.magnitude_bits();
        !self.sign_bit() && 0 < magnitude && magnitude <= INFINITY_MAGNITUDE
    }

    /// `self < 0.0`.
    pub fn is_negative(&self) -> (answer: bool)
        ensures
            answer == self.negative(),
    {
        let magnitude: u64 = self.magnitude_bits();
        self.sign_bit() && 0 < magnitude && magnitude <= INFINITY_MAGNITUDE
    }

    /// `self > other`.
    pub fn gt(&self, other: &Binary64) -> (answer: bool)
        ensures
            answer == self.exceeds(*other),
    {
        let mine: u64 = self.magnitude_bits();
        let theirs: u64 = other.magnitude_bits();
        if mine > INFINITY_MAGNITUDE || theirs > INFINITY_MAGNITUDE {
            false
        } else if self.sign_bit() {
            other.sign_bit() && mine < theirs
        } else if other.sign_bit() {
            mine > 0 || theirs > 0
        } else {
            mine > theirs
        }
    }

    /// `self < other`.
    pub fn lt(&self, other: &Binary64) -> (answer: bool)
        ensures
            answer == other.exceeds(*self),
    {
        other.gt(self)
    }
}

/// `>` is a strict order on the numbers that are not NaN: nothing exceeds
/// itself, and what exceeds a number exceeds all that the number exceeds.
pub proof fn lemma_exceeds_strict_order(a: Binary64, b: Binary64, c: Binary64)
    ensures
        !a.exceeds(a),
        a.exceeds(b) ==> !b.exceeds(a),
        a.exceeds(b) && b.exceeds(c) ==> a.exceeds(c),
{
}

/// A number is positive exactly when it exceeds either zero, and negative
/// exactly when either zero exceeds it.
pub proof fn lemma_sign_against_zero(a: Binary64, zero: Binary64)
    requires
        zero.zero_valued(),
    ensures
        a.positive() <==> a.exceeds(zero),
        a.negative() <==> zero.exceeds(a),
{
}

} // verus!
