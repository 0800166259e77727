//! Samples: IEEE 754 binary32 values, held by their bit pattern.

use vstd::prelude::*;

verus! {

/// One sample of the input signal: the bit pattern of an IEEE 754 binary32
/// value (sign bit, eight exponent bits, twenty-three fraction bits).
///
/// `==` on samples compares bit patterns. The numeric comparisons are
/// [`Sample::lt`] and [`Sample::le`]: they treat `-0.0` and `0.0` as equal and
/// are false whenever either side is not a number.
#[derive(Clone, Copy, Debug, PartialEq, Eq, Structural)]
pub struct Sample {
    pub bits: u32,
}

/// The bit that holds the sign.
pub const SIGN_BIT: u32 = 0x8000_0000;

/// The magnitude of infinity: exponent all ones, fraction zero.
pub const INFINITY_MAGNITUDE: u32 = 0x7f80_0000;

impl Sample {
    /// The bit pattern without its sign bit.
    pub open spec fn magnitude(self) -> int {
        if self.bits >= SIGN_BIT {
            self.bits - SIGN_BIT
        } else {
            self.bits as int
        }
    }

    /// Whether the sign bit is set.
    pub open spec fn is_negative(self) -> bool {
        self.bits >= SIGN_BIT
    }

    /// Whether the pattern encodes no number: a magnitude above infinity's.
    pub open spec fn is_nan(self) -> bool {
        self.magnitude() > INFINITY_MAGNITUDE
    }

    /// The place of the sample on the number line. Among patterns that encode
    /// numbers, a greater value has a greater rank, and both zeros have rank 0.
    pub open spec fn rank(self) -> int {
        if self.is_negative() {
            -self.magnitude()
        } else {
            self.magnitude()
        }
    }

    /// `self < other` as binary32 values.
    pub open spec fn spec_lt(self, other: Sample) -> bool {
        !self.is_nan() && !other.is_nan() && self.rank() < other.rank()
    }

    /// `self <= other` as binary32 values.
    pub open spec fn spec_le(self, other: Sample) -> bool {
        !self.is_nan() && !other.is_nan() && self.rank() <= other.rank()
    }

    /// The sample with the given bit pattern.
    pub fn from_bits(bits: u32) -> (sample: Sample)
        ensures
            sample.bits == bits,
    {
        Sample { bits }
    }

    /// The sample's bit pattern.
    pub fn to_bits(self) -> (bits: u32)
        ensures
            bits == self.bits,
    {
        self.bits
    }

    /// Positive zero, the value a window is filled with before any input.
    pub open spec fn spec_zero() -> Sample {
        Sample { bits: 0 }
    }

    /// Positive zero, the value a window is filled with before any input.
    #[verifier::when_used_as_spec(spec_zero)]
    pub fn zero() -> (sample: Sample)
        ensures
            sample == Sample::spec_zero(),
    {
        Sample { bits: 0 }
    }

    /// Whether the sample is not a number.
    pub fn not_a_number(self) -> (nan: bool)
        ensures
            nan == self.is_nan(),
    {
        if self.bits >= SIGN_BIT {
            self.bits - SIGN_BIT > INFINITY_MAGNITUDE
        } else {
            self.bits > INFINITY_MAGNITUDE
        }
    }

    /// The rank as a machine integer.
    fn rank_value(self) -> (rank: i64)
        ensures
            rank == self.rank(),
    {
        if self.bits >= SIGN_BIT {
            let magnitude: u32 = self.bits - SIGN_BIT;
            -(magnitude as i64)
        } else {
            self.bits as i64
        }
    }

    /// `self < other` as binary32 values.
    #[verifier::when_used_as_spec(spec_lt)]
    pub fn lt(self, other: Sample) -> (less: bool)
        ensures
            less == self.spec_lt(other),
    {
        !self.not_a_number() && !other.not_a_number() && self.rank_value() < other.rank_value()
    }

    /// `self <= other` as binary32 values.
    #[verifier::when_used_as_spec(spec_le)]
    pub fn le(self, other: Sample) -> (at_most: bool)
        ensures
            at_most == self.spec_le(other),
    {
        !self.not_a_number() && !other.not_a_number() && self.rank_value() <= other.rank_value()
    }
}

} // verus!
