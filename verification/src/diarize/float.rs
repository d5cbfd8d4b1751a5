//! Single-precision numbers, carried by their bit patterns.
use vstd::prelude::*;

verus! {

/// An IEEE 754 binary32 number, given by its bit pattern.
///
/// Nothing in this crate computes with these numbers: times, thresholds and
/// embedding coordinates are passed on exactly as they came. Two of them are equal
/// if their bit patterns are.
#[derive(Debug, Clone, Copy, PartialEq, Eq, Structural)]
pub struct Float32 {
    pub bits: u32,
}

impl Float32 {
    /// Whether the sign bit is set.
    pub open spec fn negative(self) -> bool {
        self.bits >= 0x8000_0000
    }

    /// The biased exponent.
    pub open spec fn exponent(self) -> int {
        (self.bits as int / 0x80_0000) % 0x100
    }

    /// The bits behind the binary point of the significand.
    pub open spec fn fraction(self) -> int {
        self.bits as int % 0x80_0000
    }

    /// The absolute value of a finite number, in units of 2^-149.
    pub open spec fn magnitude(self) -> int {
        if self.exponent() == 0 {
            self.fraction()
        } else {
            (0x80_0000 + self.fraction()) * vstd::arithmetic::power2::pow2(
                (self.exponent() - 1) as nat,
            )
        }
    }

    /// Whether the number is finite and equals `num / den`.
    pub open spec fn is_ratio(self, num: int, den: int) -> bool {
        &&& den != 0
        &&& self.exponent() < 0xff
        &&& (if self.negative() {
            -self.magnitude()
        } else {
            self.magnitude()
        }) * den == num * vstd::arithmetic::power2::pow2(149)
    }

    /// Positive zero.
    pub fn zero() -> (r: Float32)
        ensures
            r.bits == 0,
            r.is_ratio(0, 1),
    {
        Float32 { bits: 0 }
    }

    /// One half.
    pub fn half() -> (r: Float32)
        ensures
            r.bits == 0x3f00_0000,
            r.is_ratio(1, 2),
    {
        let r = Float32 { bits: 0x3f00_0000 };
        proof {
            vstd::arithmetic::power2::lemma2_to64();
            vstd::arithmetic::power2::lemma_pow2_adds(24, 125);
            assert(r.exponent() == 126);
            assert(r.fraction() == 0);
            assert(r.magnitude() == 0x80_0000 * vstd::arithmetic::power2::pow2(125));
        }
        r
    }
}

} // verus!
