//! Single-precision numbers, held by their bit pattern.
//!
//! Similarity scores, thresholds and embedding components are IEEE 754 single-precision
//! numbers. The library keeps them as 32-bit patterns and reasons about the numbers that
//! the patterns stand for.

use vstd::prelude::*;
use vstd::arithmetic::power2::*;

verus! {

/// The sign bit, as a number.
pub const SIGN_BIT: u32 = 0x8000_0000;

/// Magnitude pattern of infinity; larger magnitudes are not numbers.
pub const INFINITY_BITS: u32 = 0x7f80_0000;

/// Pattern of positive zero.
pub const ZERO_BITS: u32 = 0;

/// Pattern of one.
pub const ONE_BITS: u32 = 0x3f80_0000;

/// A single-precision number by its IEEE 754 bit pattern.
///
/// Structural equality compares patterns; the order of the numbers is that of `at_least`.
#[derive(Clone, Copy, PartialEq, Eq, Structural, Debug)]
pub struct Real32 {
    pub bits: u32,
}

/// The number that a magnitude pattern (no sign) stands for, times `2^149`. Every finite
/// single-precision number is an integer at this scale; infinity comes out above all of them.
pub open spec fn scaled_magnitude(magnitude: int) -> int {
    let exponent = magnitude / 0x0080_0000;
    let fraction = magnitude % 0x0080_0000;
    if exponent == 0 {
        fraction
    } else {
        (fraction + 0x0080_0000) * pow2((exponent - 1) as nat)
    }
}

impl Real32 {
    /// The pattern without its sign bit.
    pub open spec fn magnitude(self) -> int {
        if self.bits >= SIGN_BIT {
            self.bits - SIGN_BIT
        } else {
            self.bits as int
        }
    }

    /// Whether the pattern stands for no number.
    pub open spec fn is_nan(self) -> bool {
        self.magnitude() > INFINITY_BITS
    }

    /// The number, times `2^149`. Both zeros have the value 0. Means nothing for a NaN.
    pub open spec fn value(self) -> int {
        if self.bits >= SIGN_BIT {
            -scaled_magnitude(self.magnitude())
        } else {
            scaled_magnitude(self.magnitude())
        }
    }

    /// The place of the number in the order of all numbers: the magnitude pattern, negative where
    /// the sign bit is set. Both zeros have the place 0.
    pub open spec fn rank(self) -> int {
        if self.bits >= SIGN_BIT {
            -self.magnitude()
        } else {
            self.magnitude()
        }
    }

    /// `self >= other` as IEEE 754 compares: false as soon as one of them is a NaN.
    pub open spec fn spec_at_least(self, other: Real32) -> bool {
        !self.is_nan() && !other.is_nan() && self.rank() >= other.rank()
    }

    /// Whether `self` is a number and not less than the number `other`.
    pub fn at_least(self, other: Real32) -> (holds: bool)
        ensures
            holds == self.spec_at_least(other),
    {
        let (a, a_negative) = self.split();
        let (b, b_negative) = other.split();
        if a > INFINITY_BITS || b > INFINITY_BITS {
            false
        } else if a_negative {
            if b_negative {
                a <= b
            } else {
                a == 0 && b == 0
            }
        } else if b_negative {
            true
        } else {
            a >= b
        }
    }

    /// The pattern without its sign bit, and whether that bit is set.
    fn split(self) -> (parts: (u32, bool))
        ensures
            parts.0 == self.magnitude(),
            parts.1 == (self.bits >= SIGN_BIT),
    {
        if self.bits >= SIGN_BIT {
            (self.bits - SIGN_BIT, true)
        } else {
            (self.bits, false)
        }
    }
}

/// Comparing patterns is comparing the numbers that they stand for.
pub proof fn law_at_least_compares_the_numbers(a: Real32, b: Real32)
    ensures
        a.spec_at_least(b) == (!a.is_nan() && !b.is_nan() && a.value() >= b.value()),
        a.rank() < b.rank() <==> a.value() < b.value(),
        a.rank() == b.rank() <==> a.value() == b.value(),
{
    lemma_magnitude_order(a.magnitude(), b.magnitude());
    lemma_magnitude_order(0, a.magnitude());
    lemma_magnitude_order(0, b.magnitude());
}

/// `a >= b` of the numbers that two patterns stand for: neither is a NaN, and the values compare so.
pub open spec fn reaches(a: Real32, b: Real32) -> bool {
    !a.is_nan() && !b.is_nan() && a.value() >= b.value()
}

/// The sign bit negates: patterns that differ in it alone stand for opposite numbers, and below it
/// the value grows with the pattern from 0 on.
pub proof fn law_sign_bit_negates(a: Real32, b: Real32)
    ensures
        b.bits == a.bits + SIGN_BIT ==> b.value() == -a.value() && b.is_nan() == a.is_nan(),
        a.bits < b.bits < SIGN_BIT ==> 0 <= a.value() < b.value(),
{
    lemma_magnitude_order(a.magnitude(), b.magnitude());
    lemma_magnitude_order(0, a.magnitude());
}

/// Magnitude patterns are ordered as the numbers that they stand for.
pub proof fn lemma_magnitude_order(a: int, b: int)
    requires
        0 <= a,
        0 <= b,
    ensures
        a < b <==> scaled_magnitude(a) < scaled_magnitude(b),
        a == b <==> scaled_magnitude(a) == scaled_magnitude(b),
        scaled_magnitude(0) == 0,
{
    if a < b {
        lemma_magnitude_increases(a, b);
    } else if b < a {
        lemma_magnitude_increases(b, a);
    }
}

/// A larger magnitude pattern stands for a larger number.
proof fn lemma_magnitude_increases(a: int, b: int)
    requires
        0 <= a < b,
    ensures
        scaled_magnitude(a) < scaled_magnitude(b),
{
    let ea = a / 0x0080_0000;
    let eb = b / 0x0080_0000;
    let fa = a % 0x0080_0000;
    let fb = b % 0x0080_0000;
    assert(ea <= eb);
    if ea == eb {
        assert(fa < fb);
        if ea > 0 {
            let p = pow2((ea - 1) as nat);
            lemma_pow2_pos((ea - 1) as nat);
            assert((fa + 0x0080_0000) * p < (fb + 0x0080_0000) * p) by (nonlinear_arith)
                requires
                    fa < fb,
                    p > 0,
            ;
        }
    } else {
        let q = pow2((eb - 1) as nat);
        lemma_pow2_pos((eb - 1) as nat);
        assert((fb + 0x0080_0000) * q >= 0x0080_0000 * q) by (nonlinear_arith)
            requires
                fb >= 0,
                q > 0,
        ;
        if ea > 0 {
            let p = pow2((ea - 1) as nat);
            lemma_pow2_pos((ea - 1) as nat);
            lemma_pow2_unfold(ea as nat);
            if ea < eb - 1 {
                lemma_pow2_strictly_increases(ea as nat, (eb - 1) as nat);
            }
            assert(2 * p <= q);
            assert((fa + 0x0080_0000) * p < 0x0080_0000 * q) by (nonlinear_arith)
                requires
                    fa < 0x0080_0000,
                    p > 0,
                    2 * p <= q,
            ;
        }
    }
}

/// Which patterns stand for no number: those above infinity, under either sign.
pub proof fn law_nan_lies_above_infinity(a: Real32)
    ensures
        a.is_nan() <==> 0x7f80_0000 < a.bits < 0x8000_0000 || 0xff80_0000 < a.bits,
{
}

/// The numbers below the sign bit: the patterns of the first two exponents count up from 0 one by
/// one, and from there on each step of the exponent doubles the number.
pub proof fn law_exponents_double(a: Real32, b: Real32)
    ensures
        a.bits < 0x0100_0000 ==> a.value() == a.bits,
        0x0080_0000 <= a.bits && b.bits == a.bits + 0x0080_0000 && b.bits < SIGN_BIT ==> b.value()
            == 2 * a.value(),
{
    lemma2_to64();
    if 0x0080_0000 <= a.bits < 0x0100_0000 {
        assert(a.bits as int / 0x0080_0000 == 1);
        assert(pow2((a.bits as int / 0x0080_0000 - 1) as nat) == 1);
    }
    if 0x0080_0000 <= a.bits && b.bits == a.bits + 0x0080_0000 && b.bits < SIGN_BIT {
        let exponent = a.bits as int / 0x0080_0000;
        let significand = a.bits as int % 0x0080_0000 + 0x0080_0000;
        let p = pow2((exponent - 1) as nat) as int;
        lemma_pow2_unfold(exponent as nat);
        assert(b.value() == significand * (2 * p));
        assert(significand * (2 * p) == 2 * (significand * p)) by (nonlinear_arith);
    }
}

} // verus!
