//! Angles in degrees, carried as the bit pattern of an IEEE 754
//! single-precision number.
//!
//! Every finite single-precision number is a whole multiple of 2^-149, so the
//! value of an encoding is stated exactly as an integer count of that unit.
//! Comparisons are computed on the encodings and proved to agree with the
//! order of those integers.
use vstd::prelude::*;
use vstd::arithmetic::power2::{pow2, lemma2_to64, lemma_pow2_pos, lemma_pow2_unfold,
    lemma_pow2_strictly_increases};

verus! {

/// Weight of the sign bit in an encoding.
pub const SIGN_BIT: u32 = 0x8000_0000;

/// Weight of the lowest exponent bit: the fraction field has 23 bits.
pub const HIDDEN_BIT: u32 = 0x0080_0000;

/// Encoding of positive infinity; larger magnitudes are not numbers.
pub const INFINITY_BITS: u32 = 0x7f80_0000;

/// The number of 2^-149 units in a magnitude field (an encoding without its
/// sign bit): the fraction alone while the exponent field is zero, and the
/// fraction with its hidden bit, doubled once for each exponent step above
/// one, otherwise.
pub open spec fn weight(magnitude_bits: nat) -> nat {
    let exponent = magnitude_bits / (HIDDEN_BIT as nat);
    let fraction = magnitude_bits % (HIDDEN_BIT as nat);
    if exponent == 0 {
        fraction
    } else {
        ((HIDDEN_BIT + fraction) * pow2((exponent - 1) as nat)) as nat
    }
}

/// A whole number of degrees, in units of 2^-149 degrees.
pub open spec fn degrees(d: int) -> int {
    d * pow2(149)
}

/// An angle in degrees. `==` compares encodings; the numeric comparisons are
/// `lt` and `le`.
#[derive(Clone, Copy, Debug, PartialEq, Eq, Structural)]
pub struct Angle {
    pub bits: u32,
}

impl Angle {
    /// Whether the sign bit is set (also true of negative zero).
    pub open spec fn sign(self) -> bool {
        self.bits >= SIGN_BIT
    }

    /// The encoding without its sign bit.
    pub open spec fn magnitude_bits(self) -> nat {
        if self.sign() {
            (self.bits - SIGN_BIT) as nat
        } else {
            self.bits as nat
        }
    }

    /// Whether the encoding is not a number: its magnitude lies beyond
    /// that of an infinity.
    pub open spec fn spec_is_nan(self) -> bool {
        self.magnitude_bits() > INFINITY_BITS
    }

    /// Neither an infinity nor a NaN.
    pub open spec fn finite(self) -> bool {
        self.magnitude_bits() < INFINITY_BITS
    }

    /// The value in units of 2^-149 degrees. Both zeros give 0. An infinity
    /// gives the power of two just beyond every finite value, so that one
    /// order covers all numbers; a NaN has no value, and no comparison
    /// consults this for one.
    pub open spec fn scaled(self) -> int {
        if self.sign() {
            -(weight(self.magnitude_bits()) as int)
        } else {
            weight(self.magnitude_bits()) as int
        }
    }

    /// The same magnitude with the sign bit flipped.
    pub open spec fn spec_neg(self) -> Angle {
        if self.sign() {
            Angle { bits: (self.bits - SIGN_BIT) as u32 }
        } else {
            Angle { bits: (self.bits + SIGN_BIT) as u32 }
        }
    }

    /// `self < other` as the numbers compare: false when either is a NaN.
    pub open spec fn spec_lt(self, other: Angle) -> bool {
        !self.spec_is_nan() && !other.spec_is_nan() && self.scaled() < other.scaled()
    }

    /// `self <= other` as the numbers compare: false when either is a NaN.
    pub open spec fn spec_le(self, other: Angle) -> bool {
        !self.spec_is_nan() && !other.spec_is_nan() && self.scaled() <= other.scaled()
    }

    /// Whether this is exactly the whole number `d` of degrees.
    pub open spec fn is_degrees(self, d: int) -> bool {
        !self.spec_is_nan() && self.scaled() == degrees(d)
    }

    /// A number in the half-open circle from -180 to 180 degrees.
    pub open spec fn spec_in_range(self) -> bool {
        !self.spec_is_nan() && degrees(-180) <= self.scaled() < degrees(180)
    }

    /// The angle with the encoding `bits`.
    pub fn from_bits(bits: u32) -> (a: Angle)
        ensures
            a.bits == bits,
    {
        Angle { bits }
    }

    /// The encoding of the angle.
    pub fn to_bits(self) -> (bits: u32)
        ensures
            bits == self.bits,
    {
        self.bits
    }

    /// The encoding without its sign bit.
    fn magnitude(self) -> (m: u32)
        ensures
            m == self.magnitude_bits(),
            m < SIGN_BIT,
    {
        if self.bits >= SIGN_BIT {
            self.bits - SIGN_BIT
        } else {
            self.bits
        }
    }

    /// Whether the encoding is not a number.
    #[verifier::when_used_as_spec(spec_is_nan)]
    pub fn is_nan(self) -> (r: bool)
        ensures
            r == self.spec_is_nan(),
    {
        self.magnitude() > INFINITY_BITS
    }

    /// The absolute value: the same encoding with the sign bit cleared.
    pub fn abs(self) -> (r: Angle)
        ensures
            r.bits == self.magnitude_bits(),
            r.spec_is_nan() == self.spec_is_nan(),
            r.scaled() == if self.scaled() < 0 { -self.scaled() } else { self.scaled() },
    {
        Angle { bits: self.magnitude() }
    }

    /// The negated value: a number times minus one, and a NaN for a NaN.
    #[verifier::when_used_as_spec(spec_neg)]
    pub fn neg(self) -> (r: Angle)
        ensures
            r == self.spec_neg(),
            r.spec_is_nan() == self.spec_is_nan(),
            r.scaled() == -self.scaled(),
    {
        if self.bits >= SIGN_BIT {
            Angle { bits: self.bits - SIGN_BIT }
        } else {
            Angle { bits: self.bits + SIGN_BIT }
        }
    }

    /// `self < other` as the numbers compare, computed on the encodings:
    /// magnitudes order as their encodings do, a set sign bit turns the
    /// order round, and the two zeros are equal.
    #[verifier::when_used_as_spec(spec_lt)]
    pub fn lt(self, other: Angle) -> (r: bool)
        ensures
            r == self.spec_lt(other),
    {
        if self.is_nan() || other.is_nan() {
            return false;
        }
        let a: u32 = self.magnitude();
        let b: u32 = other.magnitude();
        proof {
            lemma_weight_order(a as nat, b as nat);
            lemma_weight_order(0, a as nat);
            lemma_weight_order(0, b as nat);
        }
        if self.bits >= SIGN_BIT {
            if other.bits >= SIGN_BIT {
                b < a
            } else {
                a != 0 || b != 0
            }
        } else {
            if other.bits >= SIGN_BIT {
                false
            } else {
                a < b
            }
        }
    }

    /// `self <= other` as the numbers compare, computed on the encodings.
    #[verifier::when_used_as_spec(spec_le)]
    pub fn le(self, other: Angle) -> (r: bool)
        ensures
            r == self.spec_le(other),
    {
        if self.is_nan() || other.is_nan() {
            return false;
        }
        let a: u32 = self.magnitude();
        let b: u32 = other.magnitude();
        proof {
            lemma_weight_order(a as nat, b as nat);
            lemma_weight_order(0, a as nat);
            lemma_weight_order(0, b as nat);
        }
        if self.bits >= SIGN_BIT {
            if other.bits >= SIGN_BIT {
                b <= a
            } else {
                true
            }
        } else {
            if other.bits >= SIGN_BIT {
                a == 0 && b == 0
            } else {
                a <= b
            }
        }
    }

    /// The encoding of a whole number of degrees; zero is encoded without
    /// the sign bit.
    pub fn from_degrees(d: i16) -> (a: Angle)
        ensures
            a.is_degrees(d as int),
            a.finite(),
            a.sign() == (d < 0),
    {
        if d == 0 {
            return Angle { bits: 0 };
        }
        let size: u32 = if d < 0 { (-(d as i32)) as u32 } else { d as u32 };
        // `fraction` doubles until its hidden bit is in place, while
        // `exponent` pays for each doubling.
        let mut fraction: u32 = size;
        let mut exponent: u32 = 150;
        proof {
            lemma2_to64();
            let one = pow2(0);
            assert(size * one == size) by (nonlinear_arith)
                requires
                    one == 1,
            ;
        }
        while fraction < HIDDEN_BIT
            invariant
                0 < size <= 0x8000,
                0 < fraction < 2 * HIDDEN_BIT,
                127 <= exponent <= 150,
                fraction == size * pow2((150 - exponent) as nat),
                fraction * pow2((exponent - 1) as nat) == size * pow2(149),
            decreases 2 * HIDDEN_BIT - fraction,
        {
            proof {
                lemma_pow2_unfold((150 - exponent + 1) as nat);
                lemma_pow2_unfold((exponent - 1) as nat);
                lemma_pow2_pos((150 - exponent) as nat);
                let low = pow2((150 - exponent) as nat);
                let high = pow2((exponent - 2) as nat);
                assert((2 * fraction) * high == fraction * (2 * high)) by (nonlinear_arith);
                assert(size * (2 * low) == 2 * (size * low)) by (nonlinear_arith);
                if exponent == 127 {
                    // 23 doublings of a nonzero size reach the hidden bit.
                    lemma2_to64();
                    assert(size * low >= low) by (nonlinear_arith)
                        requires
                            size >= 1,
                            low >= 0,
                    ;
                }
            }
            fraction = fraction * 2;
            exponent = exponent - 1;
        }
        let magnitude: u32 = exponent * HIDDEN_BIT + (fraction - HIDDEN_BIT);
        let bits: u32 = if d < 0 { magnitude + SIGN_BIT } else { magnitude };
        proof {
            assert(magnitude as nat / (HIDDEN_BIT as nat) == exponent);
            assert(magnitude as nat % (HIDDEN_BIT as nat) == fraction - HIDDEN_BIT);
            assert(weight(magnitude as nat) == size * pow2(149));
            if d < 0 {
                assert((-(size as int)) * pow2(149) == -(size * pow2(149))) by (nonlinear_arith);
            }
        }
        Angle { bits }
    }

    /// Whether the angle is a number in the half-open circle from -180 to
    /// 180 degrees.
    #[verifier::when_used_as_spec(spec_in_range)]
    pub fn in_range(self) -> (r: bool)
        ensures
            r == self.spec_in_range(),
    {
        Angle::from_degrees(-180).le(self) && self.lt(Angle::from_degrees(180))
    }
}

/// A larger magnitude field weighs more: the encoding orders magnitudes as
/// their values are ordered.
pub proof fn lemma_weight_increases(a: nat, b: nat)
    requires
        a < b,
    ensures
        weight(a) < weight(b),
{
    let unit = HIDDEN_BIT as nat;
    let ea = a / unit;
    let fa = a % unit;
    let eb = b / unit;
    let fb = b % unit;
    assert(ea <= eb);
    if ea == eb {
        assert(fa < fb);
        if ea > 0 {
            let p = pow2((ea - 1) as nat);
            lemma_pow2_pos((ea - 1) as nat);
            assert((unit + fa) * p < (unit + fb) * p) by (nonlinear_arith)
                requires
                    fa < fb,
                    p > 0,
            ;
        }
    } else {
        // weight(a) < unit * 2^ea <= unit * 2^(eb - 1) <= weight(b)
        let top = pow2(ea);
        let q = pow2((eb - 1) as nat);
        lemma_pow2_pos(ea);
        if ea + 1 < eb {
            lemma_pow2_strictly_increases(ea, (eb - 1) as nat);
        }
        assert(top <= q);
        if ea == 0 {
            lemma2_to64();
            assert(weight(a) < unit * top);
        } else {
            let p = pow2((ea - 1) as nat);
            lemma_pow2_unfold(ea);
            lemma_pow2_pos((ea - 1) as nat);
            assert((unit + fa) * p < unit * (2 * p)) by (nonlinear_arith)
                requires
                    fa < unit,
                    p > 0,
            ;
        }
        assert(unit * top <= (unit + fb) * q) by (nonlinear_arith)
            requires
                top <= q,
                top > 0,
        ;
    }
}

/// Magnitude fields and their weights are ordered alike, and only the zero
/// field weighs nothing.
pub proof fn lemma_weight_order(a: nat, b: nat)
    ensures
        a < b <==> weight(a) < weight(b),
        a == b <==> weight(a) == weight(b),
        weight(0) == 0,
{
    if a < b {
        lemma_weight_increases(a, b);
    }
    if b < a {
        lemma_weight_increases(b, a);
    }
}

} // verus!
