//! Real numbers as IEEE-754 binary64 bit patterns.
//!
//! A pattern is read as sign and magnitude. Among the patterns that are not
//! NaN the numeric order is the order of the signed magnitudes, and the two
//! zeros are the one number 0.

use vstd::prelude::*;

verus! {

/// The sign bit of a pattern.
pub const SIGN_MASK: u64 = 0x8000_0000_0000_0000;

/// Every bit but the sign: exponent and fraction.
pub const MAGNITUDE_MASK: u64 = 0x7FFF_FFFF_FFFF_FFFF;

/// The magnitude of the infinities; a larger magnitude is a NaN.
pub const INFINITY_MAGNITUDE: u64 = 0x7FF0_0000_0000_0000;

/// The pattern of the number 1.
pub const ONE_BITS: u64 = 0x3FF0_0000_0000_0000;

/// A binary64 value, held as its bit pattern.
#[derive(Clone, Copy, Debug, PartialEq, Eq, Structural)]
pub struct Scalar {
    pub bits: u64,
}

/// The magnitude field of a pattern.
pub open spec fn magnitude_of(bits: u64) -> u64 {
    bits & MAGNITUDE_MASK
}

/// Whether the sign bit of a pattern is set.
pub open spec fn sign_of(bits: u64) -> bool {
    bits & SIGN_MASK != 0
}

impl Scalar {
    /// The pattern is a NaN: exponent all ones, fraction not zero.
    pub open spec fn nan(self) -> bool {
        magnitude_of(self.bits) > INFINITY_MAGNITUDE
    }

    /// The pattern is a finite number: neither a NaN nor an infinity.
    pub open spec fn finite(self) -> bool {
        magnitude_of(self.bits) < INFINITY_MAGNITUDE
    }

    /// The signed magnitude of the pattern. For patterns that are not NaN it
    /// grows exactly as the number does; both zeros give 0.
    pub open spec fn rank(self) -> int {
        if sign_of(self.bits) {
            -(magnitude_of(self.bits) as int)
        } else {
            magnitude_of(self.bits) as int
        }
    }

    /// Numeric `<`: false as soon as one side is a NaN.
    pub open spec fn less(self, other: Scalar) -> bool {
        !self.nan() && !other.nan() && self.rank() < other.rank()
    }

    /// Numeric `<=`: false as soon as one side is a NaN.
    pub open spec fn at_most(self, other: Scalar) -> bool {
        !self.nan() && !other.nan() && self.rank() <= other.rank()
    }

    /// Numeric `==`: false as soon as one side is a NaN, true of the two zeros.
    pub open spec fn same(self, other: Scalar) -> bool {
        !self.nan() && !other.nan() && self.rank() == other.rank()
    }

    /// The pattern with its sign bit flipped.
    pub open spec fn negated(self) -> Scalar {
        Scalar { bits: self.bits ^ SIGN_MASK }
    }

    /// The pattern with its sign bit cleared: the magnitude of the number.
    pub open spec fn magnitude(self) -> Scalar {
        Scalar { bits: magnitude_of(self.bits) }
    }

    /// The number 0 (positive zero).
    pub open spec fn spec_zero() -> Scalar {
        Scalar { bits: 0 }
    }

    /// The number 1.
    pub open spec fn spec_one() -> Scalar {
        Scalar { bits: ONE_BITS }
    }

    /// The scalar with the given pattern.
    pub fn from_bits(bits: u64) -> (r: Scalar)
        ensures
            r.bits == bits,
    {
        Scalar { bits }
    }

    /// The pattern of the scalar.
    pub fn to_bits(self) -> (r: u64)
        ensures
            r == self.bits,
    {
        self.bits
    }

    /// The number 0 (positive zero).
    #[verifier::when_used_as_spec(spec_zero)]
    pub fn zero() -> (r: Scalar)
        ensures
            r == Scalar::spec_zero(),
    {
        Scalar { bits: 0 }
    }

    /// The number 1.
    #[verifier::when_used_as_spec(spec_one)]
    pub fn one() -> (r: Scalar)
        ensures
            r == Scalar::spec_one(),
    {
        Scalar { bits: ONE_BITS }
    }

    /// Whether the scalar is a NaN.
    pub fn is_nan(self) -> (r: bool)
        ensures
            r == self.nan(),
    {
        (self.bits & MAGNITUDE_MASK) > INFINITY_MAGNITUDE
    }

    /// The signed magnitude as a machine integer.
    pub fn key(self) -> (r: i64)
        ensures
            r == self.rank(),
    {
        let bits: u64 = self.bits;
        let magnitude: u64 = bits & MAGNITUDE_MASK;
        assert(magnitude <= 0x7FFF_FFFF_FFFF_FFFF) by (bit_vector)
            requires
                magnitude == bits & 0x7FFF_FFFF_FFFF_FFFF,
        ;
        let plain: i64 = magnitude as i64;
        if bits & SIGN_MASK != 0 {
            -plain
        } else {
            plain
        }
    }

    /// Numeric `<`.
    pub fn lt(self, other: Scalar) -> (r: bool)
        ensures
            r == self.less(other),
    {
        !self.is_nan() && !other.is_nan() && self.key() < other.key()
    }

    /// Numeric `<=`.
    pub fn le(self, other: Scalar) -> (r: bool)
        ensures
            r == self.at_most(other),
    {
        !self.is_nan() && !other.is_nan() && self.key() <= other.key()
    }

    /// Numeric `==`. The operator `==` on scalars compares patterns instead: it
    /// tells the two zeros apart and finds a NaN equal to itself.
    pub fn equals(self, other: Scalar) -> (r: bool)
        ensures
            r == self.same(other),
    {
        !self.is_nan() && !other.is_nan() && self.key() == other.key()
    }

    /// The magnitude of the number. Exact for every pattern: no rounding,
    /// and a NaN stays a NaN.
    pub fn abs(self) -> (r: Scalar)
        ensures
            r == self.magnitude(),
    {
        Scalar { bits: self.bits & MAGNITUDE_MASK }
    }

    /// Flips the sign. Exact for every pattern: no rounding, a NaN stays a
    /// NaN, and each zero turns into the other.
    pub fn neg(self) -> (r: Scalar)
        ensures
            r == self.negated(),
            r.nan() == self.nan(),
            r.rank() == -self.rank(),
    {
        proof {
            lemma_negated(self);
        }
        Scalar { bits: self.bits ^ SIGN_MASK }
    }
}

/// Flipping the sign keeps the magnitude and mirrors the rank; doing it twice
/// gives the pattern back.
pub proof fn lemma_negated(s: Scalar)
    ensures
        magnitude_of(s.negated().bits) == magnitude_of(s.bits),
        sign_of(s.negated().bits) == !sign_of(s.bits),
        s.negated().nan() == s.nan(),
        s.negated().rank() == -s.rank(),
        s.negated().negated() == s,
{
    let b = s.bits;
    assert((b ^ 0x8000_0000_0000_0000u64) & 0x7FFF_FFFF_FFFF_FFFFu64 == b
        & 0x7FFF_FFFF_FFFF_FFFFu64) by (bit_vector);
    assert(((b ^ 0x8000_0000_0000_0000u64) & 0x8000_0000_0000_0000u64 != 0) == !(b
        & 0x8000_0000_0000_0000u64 != 0)) by (bit_vector);
    assert((b ^ 0x8000_0000_0000_0000u64) ^ 0x8000_0000_0000_0000u64 == b) by (bit_vector);
}

/// Numeric order on the patterns that are not NaN is a total preorder, and
/// `same` is its equivalence.
pub proof fn lemma_order_total(a: Scalar, b: Scalar)
    requires
        !a.nan(),
        !b.nan(),
    ensures
        a.less(b) || a.same(b) || b.less(a),
        a.at_most(b) == !b.less(a),
        a.at_most(b) == (a.less(b) || a.same(b)),
{
}

/// The constants are what their names say: 0 ranks 0, 1 ranks above it, and
/// neither is a NaN.
pub proof fn lemma_constants()
    ensures
        !Scalar::spec_zero().nan(),
        Scalar::spec_zero().rank() == 0,
        !Scalar::spec_one().nan(),
        Scalar::spec_one().rank() == ONE_BITS,
        Scalar::spec_zero().less(Scalar::spec_one()),
{
    assert(0u64 & 0x7FFF_FFFF_FFFF_FFFFu64 == 0) by (bit_vector);
    assert(0u64 & 0x8000_0000_0000_0000u64 == 0) by (bit_vector);
    assert(0x3FF0_0000_0000_0000u64 & 0x7FFF_FFFF_FFFF_FFFFu64 == 0x3FF0_0000_0000_0000u64)
        by (bit_vector);
    assert(0x3FF0_0000_0000_0000u64 & 0x8000_0000_0000_0000u64 == 0) by (bit_vector);
}

} // verus!
