//! Real numbers as the renderer carries them: IEEE 754 single-precision
//! values, held by their bit pattern.
//!
//! The library never adds or multiplies scalars. It stores them, hands them
//! on, orders them, negates them and takes their integer part. What each of
//! these operations yields is stated over the number that a bit pattern
//! denotes, and the bit manipulation that computes it is proved against
//! that statement.

use vstd::prelude::*;
use vstd::arithmetic::div_mod::lemma_basic_div;
use vstd::arithmetic::div_mod::lemma_div_by_multiple;
use vstd::arithmetic::div_mod::lemma_div_is_ordered;
use vstd::arithmetic::div_mod::lemma_div_multiples_vanish_quotient;
use vstd::arithmetic::power2::lemma2_to64;
use vstd::arithmetic::power2::lemma_pow2_adds;
use vstd::arithmetic::power2::lemma_pow2_pos;
use vstd::arithmetic::power2::lemma_pow2_strictly_increases;
use vstd::arithmetic::power2::lemma_pow2_unfold;
use vstd::arithmetic::power2::pow2;
use vstd::bits::lemma_u32_shl_is_mul;
use vstd::bits::lemma_u32_shr_is_div;

verus! {

/// Bit pattern of `0.0`.
pub const ZERO_BITS: u32 = 0;

/// Bit pattern of `1.0`.
pub const ONE_BITS: u32 = 0x3f80_0000;

/// Bit pattern of positive infinity.
pub const INFINITY_BITS: u32 = 0x7f80_0000;

/// Whether the sign bit of `bits` is set.
pub open spec fn sign_of(bits: u32) -> bool {
    bits & 0x8000_0000u32 != 0
}

/// The exponent field of `bits`, eight bits wide.
pub open spec fn exponent_of(bits: u32) -> nat {
    ((bits >> 23u32) & 0xffu32) as nat
}

/// The fraction field of `bits`, 23 bits wide.
pub open spec fn fraction_of(bits: u32) -> nat {
    (bits & 0x7f_ffffu32) as nat
}

/// A single-precision real, carried by its bit pattern.
///
/// Two scalars are equal under `==` when their bit patterns are. To compare
/// them as numbers, use [`Scalar::lt`], [`Scalar::gt`] and [`Scalar::ge`]:
/// the two zeros are then one number, and what is not a number is not
/// ordered with anything.
#[derive(Clone, Copy, Debug, PartialEq, Eq)]
pub struct Scalar {
    pub bits: u32,
}

impl Scalar {
    /// The scalar with the given bit pattern.
    pub open spec fn of(bits: u32) -> Scalar {
        Scalar { bits }
    }

    /// Whether the scalar is not a number: the exponent field is all ones
    /// and the fraction field is not zero.
    pub open spec fn nan(self) -> bool {
        exponent_of(self.bits) == 255 && fraction_of(self.bits) != 0
    }

    /// Whether the scalar is an infinity: the exponent field is all ones and
    /// the fraction field is zero.
    pub open spec fn infinite(self) -> bool {
        exponent_of(self.bits) == 255 && fraction_of(self.bits) == 0
    }

    /// The significand as a whole number: the fraction field, with a
    /// leading one before it unless the exponent field is zero.
    pub open spec fn significand(self) -> nat {
        if exponent_of(self.bits) == 0 {
            fraction_of(self.bits)
        } else {
            0x80_0000 + fraction_of(self.bits)
        }
    }

    /// The power of two by which the significand is scaled, counted from
    /// that of the smallest scalars.
    pub open spec fn scale(self) -> nat {
        if exponent_of(self.bits) == 0 {
            0
        } else {
            (exponent_of(self.bits) - 1) as nat
        }
    }

    /// The absolute value of the scalar in units of 2^-149, the smallest
    /// positive scalar: every finite scalar is a whole number of these.
    pub open spec fn magnitude(self) -> nat {
        self.significand() * pow2(self.scale())
    }

    /// The number that the scalar denotes, in units of 2^-149. The two
    /// zeros denote 0. An infinity is given the value of the power of two
    /// that follows the largest finite scalar, 2^128, with its sign. The
    /// value means nothing for a scalar that is not a number.
    pub open spec fn value(self) -> int {
        if sign_of(self.bits) {
            -(self.magnitude() as int)
        } else {
            self.magnitude() as int
        }
    }

    /// `self < other`: both are numbers and the value of `self` is the
    /// smaller.
    pub open spec fn less(self, other: Scalar) -> bool {
        !self.nan() && !other.nan() && self.value() < other.value()
    }

    /// `self >= other`: both are numbers and the value of `self` is not the
    /// smaller.
    pub open spec fn at_least(self, other: Scalar) -> bool {
        !self.nan() && !other.nan() && self.value() >= other.value()
    }

    /// `self > 0`.
    pub open spec fn positive(self) -> bool {
        !self.nan() && self.value() > 0
    }

    /// `-self`: the scalar with the sign bit flipped.
    pub open spec fn negated(self) -> Scalar {
        Scalar { bits: self.bits ^ 0x8000_0000u32 }
    }

    /// The scalar as an unsigned integer of 32 bits: its value rounded
    /// towards zero, 0 where that is negative or the scalar is not a
    /// number, and the largest integer of the type where the value exceeds
    /// it.
    pub open spec fn truncated(self) -> u32 {
        let whole = self.value() / (pow2(149) as int);
        if self.nan() || whole < 0 {
            0
        } else if whole > u32::MAX {
            u32::MAX
        } else {
            whole as u32
        }
    }

    /// The bits below the sign bit, read as a whole number and given the
    /// sign of the scalar: a number that is ordered as the values are.
    pub open spec fn rank(self) -> int {
        if sign_of(self.bits) {
            -((self.bits & 0x7fff_ffffu32) as int)
        } else {
            (self.bits & 0x7fff_ffffu32) as int
        }
    }

    /// The scalar with the given bit pattern.
    pub fn from_bits(bits: u32) -> (s: Scalar)
        ensures
            s == Scalar::of(bits),
    {
        Scalar { bits }
    }

    /// The bit pattern of the scalar.
    pub fn to_bits(self) -> (bits: u32)
        ensures
            bits == self.bits,
    {
        self.bits
    }

    /// The scalar `0.0`.
    pub fn zero() -> (s: Scalar)
        ensures
            s == Scalar::of(ZERO_BITS),
            !s.nan(),
            s.value() == 0,
    {
        proof {
            lemma_zero();
        }
        Scalar { bits: ZERO_BITS }
    }

    /// The scalar `1.0`.
    pub fn one() -> (s: Scalar)
        ensures
            s == Scalar::of(ONE_BITS),
            !s.nan(),
            s.value() == pow2(149),
    {
        proof {
            lemma_one();
        }
        Scalar { bits: ONE_BITS }
    }

    /// Positive infinity.
    pub fn infinity() -> (s: Scalar)
        ensures
            s == Scalar::of(INFINITY_BITS),
            s.infinite(),
            s.value() > 0,
    {
        proof {
            assert(exponent_of(0x7f80_0000u32) == 255 && fraction_of(0x7f80_0000u32) == 0
                && !sign_of(0x7f80_0000u32)) by (bit_vector);
            lemma_pow2_pos(254);
            assert(0x80_0000 * pow2(254) > 0) by (nonlinear_arith)
                requires
                    pow2(254) > 0,
            ;
        }
        Scalar { bits: INFINITY_BITS }
    }

    /// Whether the scalar is not a number.
    pub fn is_nan(self) -> (r: bool)
        ensures
            r == self.nan(),
    {
        let bits: u32 = self.bits;
        assert(((bits & 0x7fff_ffffu32) > 0x7f80_0000u32) == (((bits >> 23u32) & 0xffu32) == 255
            && (bits & 0x7f_ffffu32) != 0)) by (bit_vector);
        (bits & 0x7fff_ffffu32) > INFINITY_BITS
    }

    /// The rank of the scalar as a machine integer.
    fn key(self) -> (k: i64)
        ensures
            k == self.rank(),
    {
        let bits: u32 = self.bits;
        let below_sign: u32 = bits & 0x7fff_ffffu32;
        assert(below_sign <= 0x7fff_ffffu32) by (bit_vector)
            requires
                below_sign == bits & 0x7fff_ffffu32,
        ;
        if bits & 0x8000_0000u32 != 0 {
            -(below_sign as i64)
        } else {
            below_sign as i64
        }
    }

    /// `self < other`.
    pub fn lt(self, other: Scalar) -> (r: bool)
        ensures
            r == self.less(other),
    {
        proof {
            lemma_rank_orders_as_value(self, other);
        }
        !self.is_nan() && !other.is_nan() && self.key() < other.key()
    }

    /// `self > other`.
    pub fn gt(self, other: Scalar) -> (r: bool)
        ensures
            r == other.less(self),
    {
        other.lt(self)
    }

    /// `self >= other`.
    pub fn ge(self, other: Scalar) -> (r: bool)
        ensures
            r == self.at_least(other),
    {
        proof {
            lemma_rank_orders_as_value(self, other);
        }
        !self.is_nan() && !other.is_nan() && self.key() >= other.key()
    }

    /// `self > 0`.
    pub fn is_positive(self) -> (r: bool)
        ensures
            r == self.positive(),
            r == Scalar::of(ZERO_BITS).less(self),
    {
        proof {
            lemma_zero();
            lemma_rank_orders_as_value(Scalar::of(ZERO_BITS), self);
            assert(0u32 & 0x7fff_ffffu32 == 0 && !sign_of(0u32)) by (bit_vector);
        }
        !self.is_nan() && self.key() > 0
    }

    /// `-self`.
    pub fn neg(self) -> (r: Scalar)
        ensures
            r == self.negated(),
    {
        Scalar { bits: self.bits ^ 0x8000_0000u32 }
    }

    /// The scalar as an unsigned integer of 32 bits, rounded towards zero
    /// and kept within the range of the type.
    pub fn to_u32(self) -> (r: u32)
        ensures
            r == self.truncated(),
    {
        let bits: u32 = self.bits;
        let exponent: u32 = (bits >> 23u32) & 0xffu32;
        let fraction: u32 = bits & 0x7f_ffffu32;
        proof {
            assert(exponent <= 0xff && fraction < 0x80_0000) by (bit_vector)
                requires
                    exponent == (bits >> 23u32) & 0xffu32,
                    fraction == bits & 0x7f_ffffu32,
            ;
            lemma2_to64();
            lemma_pow2_pos(149);
            lemma_pow2_pos(self.scale());
        }
        if self.is_nan() {
            return 0;
        }
        if bits & 0x8000_0000u32 != 0 {
            proof {
                let d = pow2(149) as int;
                let v = self.value();
                if v < 0 {
                    assert(v / d < 0) by (nonlinear_arith)
                        requires
                            v < 0,
                            d > 0,
                    ;
                } else {
                    lemma_basic_div(0, d);
                }
            }
            return 0;
        }
        if exponent < 127 {
            proof {
                let s = self.scale();
                if s < 125 {
                    lemma_pow2_strictly_increases(s, 125);
                }
                lemma_pow2_adds(24, 125);
                assert(self.significand() * pow2(s) < pow2(24) * pow2(125)) by (nonlinear_arith)
                    requires
                        self.significand() < pow2(24),
                        0 < pow2(s) <= pow2(125),
                ;
                lemma_basic_div(self.value(), pow2(149) as int);
            }
            return 0;
        }
        let significand: u32 = 0x80_0000u32 | fraction;
        proof {
            assert(significand == 0x80_0000 + fraction && significand < 0x100_0000) by (bit_vector)
                requires
                    significand == 0x80_0000u32 | fraction,
                    fraction < 0x80_0000u32,
            ;
        }
        if exponent >= 150 {
            let shift: u32 = exponent - 150;
            proof {
                lemma_pow2_adds(shift as nat, 149);
                lemma_pow2_pos(shift as nat);
                let whole = significand * pow2(shift as nat);
                assert(self.value() == whole * pow2(149)) by (nonlinear_arith)
                    requires
                        self.value() == significand * pow2((shift + 149) as nat),
                        pow2((shift + 149) as nat) == pow2(shift as nat) * pow2(149),
                        whole == significand * pow2(shift as nat),
                ;
                lemma_div_by_multiple(whole as int, pow2(149) as int);
                if shift >= 9 {
                    if shift > 9 {
                        lemma_pow2_strictly_increases(9, shift as nat);
                    }
                    assert(significand * pow2(shift as nat) >= 0x80_0000 * 512)
                        by (nonlinear_arith)
                        requires
                            significand >= 0x80_0000,
                            pow2(shift as nat) >= 512,
                    ;
                } else {
                    if shift < 8 {
                        lemma_pow2_strictly_increases(shift as nat, 8);
                    }
                    assert(significand * pow2(shift as nat) <= 0xff_ffff * 256)
                        by (nonlinear_arith)
                        requires
                            significand <= 0xff_ffff,
                            pow2(shift as nat) <= 256,
                    ;
                    lemma_u32_shl_is_mul(significand, shift);
                }
            }
            if shift >= 9 {
                u32::MAX
            } else {
                significand << shift
            }
        } else {
            let shift: u32 = 150 - exponent;
            proof {
                let s = self.scale();
                lemma_pow2_adds(s, shift as nat);
                lemma_pow2_pos(shift as nat);
                lemma_div_multiples_vanish_quotient(
                    pow2(s) as int,
                    significand as int,
                    pow2(shift as nat) as int,
                );
                assert(self.value() == pow2(s) * significand) by (nonlinear_arith)
                    requires
                        self.value() == significand * pow2(s),
                ;
                lemma_u32_shr_is_div(significand, shift);
            }
            significand >> shift
        }
    }
}

/// The scalar `0.0` is the number 0.
pub proof fn lemma_zero()
    ensures
        !Scalar::of(ZERO_BITS).nan(),
        Scalar::of(ZERO_BITS).value() == 0,
{
    assert(exponent_of(0u32) == 0 && fraction_of(0u32) == 0 && !sign_of(0u32)) by (bit_vector);
    assert(0 * pow2(0) == 0) by (nonlinear_arith);
}

/// The scalar `1.0` is the number 1: 2^149 units of 2^-149.
pub proof fn lemma_one()
    ensures
        !Scalar::of(ONE_BITS).nan(),
        Scalar::of(ONE_BITS).value() == pow2(149),
{
    assert(exponent_of(0x3f80_0000u32) == 127 && fraction_of(0x3f80_0000u32) == 0 && !sign_of(
        0x3f80_0000u32,
    )) by (bit_vector);
    lemma2_to64();
    lemma_pow2_adds(23, 126);
}

/// Of two scalars, the one with the smaller bit pattern below the sign has
/// the smaller magnitude, and equal patterns give equal magnitudes.
proof fn lemma_magnitude_grows_with_bits(a: Scalar, b: Scalar)
    ensures
        (a.bits & 0x7fff_ffffu32) < (b.bits & 0x7fff_ffffu32) ==> a.magnitude() < b.magnitude(),
        (a.bits & 0x7fff_ffffu32) == (b.bits & 0x7fff_ffffu32) ==> a.magnitude() == b.magnitude(),
{
    let x: u32 = a.bits;
    let y: u32 = b.bits;
    assert((x & 0x7f_ffffu32) < 0x80_0000u32 && ((x >> 23u32) & 0xffu32) <= 0xffu32)
        by (bit_vector);
    assert((y & 0x7f_ffffu32) < 0x80_0000u32 && ((y >> 23u32) & 0xffu32) <= 0xffu32)
        by (bit_vector);
    assert((x & 0x7fff_ffffu32) == (y & 0x7fff_ffffu32) ==> ((x >> 23u32) & 0xffu32) == ((y
        >> 23u32) & 0xffu32) && (x & 0x7f_ffffu32) == (y & 0x7f_ffffu32)) by (bit_vector);
    assert((x & 0x7fff_ffffu32) < (y & 0x7fff_ffffu32) ==> ((x >> 23u32) & 0xffu32) < ((y >> 23u32)
        & 0xffu32) || (((x >> 23u32) & 0xffu32) == ((y >> 23u32) & 0xffu32) && (x & 0x7f_ffffu32)
        < (y & 0x7f_ffffu32))) by (bit_vector);
    if (x & 0x7fff_ffffu32) < (y & 0x7fff_ffffu32) {
        let p = pow2(a.scale());
        let q = pow2(b.scale());
        lemma_pow2_pos(a.scale());
        lemma_pow2_pos(b.scale());
        if exponent_of(x) == exponent_of(y) {
            assert(a.significand() * p < b.significand() * p) by (nonlinear_arith)
                requires
                    a.significand() < b.significand(),
                    p > 0,
            ;
        } else if exponent_of(x) == 0 {
            lemma2_to64();
            assert(a.significand() * p == a.significand()) by (nonlinear_arith)
                requires
                    p == 1,
            ;
            assert(b.significand() * q >= 0x80_0000) by (nonlinear_arith)
                requires
                    b.significand() >= 0x80_0000,
                    q >= 1,
            ;
        } else {
            lemma_pow2_unfold(a.scale() + 1);
            if a.scale() + 1 < b.scale() {
                lemma_pow2_strictly_increases(a.scale() + 1, b.scale());
            }
            assert(a.significand() * p < b.significand() * q) by (nonlinear_arith)
                requires
                    a.significand() < 0x100_0000,
                    b.significand() >= 0x80_0000,
                    p > 0,
                    q >= 2 * p,
            ;
        }
    }
}

/// The order of two scalars can be read off their bit patterns: the rank
/// orders scalars as their values do.
pub proof fn lemma_rank_orders_as_value(a: Scalar, b: Scalar)
    ensures
        a.rank() < b.rank() <==> a.value() < b.value(),
        a.rank() == b.rank() <==> a.value() == b.value(),
{
    let zero = Scalar::of(ZERO_BITS);
    lemma_magnitude_grows_with_bits(a, b);
    lemma_magnitude_grows_with_bits(b, a);
    lemma_magnitude_grows_with_bits(zero, a);
    lemma_magnitude_grows_with_bits(zero, b);
    lemma_zero();
    assert(0u32 & 0x7fff_ffffu32 == 0) by (bit_vector);
}

/// No scalar is less than itself.
pub proof fn lemma_less_irreflexive(a: Scalar)
    ensures
        !a.less(a),
{
}

/// Of two scalars at most one is less than the other.
pub proof fn lemma_less_asymmetric(a: Scalar, b: Scalar)
    ensures
        !(a.less(b) && b.less(a)),
{
}

/// `less` is transitive.
pub proof fn lemma_less_transitive(a: Scalar, b: Scalar, c: Scalar)
    requires
        a.less(b),
        b.less(c),
    ensures
        a.less(c),
{
}

/// Two numbers are ordered one way or the other, or have the same value;
/// one is at least the other exactly when it is not less.
pub proof fn lemma_numbers_comparable(a: Scalar, b: Scalar)
    requires
        !a.nan(),
        !b.nan(),
    ensures
        a.less(b) || b.less(a) || a.value() == b.value(),
        a.at_least(b) <==> !a.less(b),
{
}

/// A scalar that is not a number is neither less than nor at least any
/// scalar.
pub proof fn lemma_nan_unordered(a: Scalar, b: Scalar)
    requires
        a.nan() || b.nan(),
    ensures
        !a.less(b),
        !b.less(a),
        !a.at_least(b),
        !b.at_least(a),
{
}

/// Two scalars with the same value have the same bit pattern, unless they
/// are the two zeros.
pub proof fn lemma_same_value(a: Scalar, b: Scalar)
    requires
        a.value() == b.value(),
    ensures
        a.bits == b.bits || (a.value() == 0 && b.value() == 0),
{
    lemma_rank_orders_as_value(a, b);
    lemma_rank_orders_as_value(Scalar::of(ZERO_BITS), a);
    lemma_zero();
    let x: u32 = a.bits;
    let y: u32 = b.bits;
    assert(0u32 & 0x7fff_ffffu32 == 0 && !sign_of(0u32)) by (bit_vector);
    assert((x & 0x7fff_ffffu32) == (y & 0x7fff_ffffu32) && sign_of(x) == sign_of(y) ==> x == y)
        by (bit_vector);
}

/// Every finite number lies strictly between the two infinities.
pub proof fn lemma_finite_within_infinities(a: Scalar)
    requires
        !a.nan(),
        !a.infinite(),
    ensures
        a.less(Scalar::of(INFINITY_BITS)),
        Scalar::of(INFINITY_BITS).negated().less(a),
{
    let x: u32 = a.bits;
    let up = Scalar::of(INFINITY_BITS);
    let down = up.negated();
    lemma_negated(up);
    assert(exponent_of(0x7f80_0000u32) == 255 && fraction_of(0x7f80_0000u32) == 0 && !sign_of(
        0x7f80_0000u32,
    )) by (bit_vector);
    assert(((x >> 23u32) & 0xffu32) != 255 ==> (x & 0x7fff_ffffu32) < (0x7f80_0000u32
        & 0x7fff_ffffu32)) by (bit_vector);
    assert(((x >> 23u32) & 0xffu32) <= 255) by (bit_vector);
    lemma_magnitude_grows_with_bits(a, up);
}

/// Negation mirrors the number line: it keeps what is not a number so,
/// turns the value of a number into its opposite, and undoes itself.
pub proof fn lemma_negated(a: Scalar)
    ensures
        a.negated().nan() == a.nan(),
        a.negated().infinite() == a.infinite(),
        a.negated().value() == -a.value(),
        a.negated().negated() == a,
{
    let x: u32 = a.bits;
    assert(((x ^ 0x8000_0000u32) >> 23u32) & 0xffu32 == (x >> 23u32) & 0xffu32) by (bit_vector);
    assert((x ^ 0x8000_0000u32) & 0x7f_ffffu32 == x & 0x7f_ffffu32) by (bit_vector);
    assert(sign_of(x ^ 0x8000_0000u32) == !sign_of(x)) by (bit_vector);
    assert((x ^ 0x8000_0000u32) ^ 0x8000_0000u32 == x) by (bit_vector);
}

/// Negation reverses the order.
pub proof fn lemma_negated_reverses(a: Scalar, b: Scalar)
    ensures
        a.less(b) <==> b.negated().less(a.negated()),
{
    lemma_negated(a);
    lemma_negated(b);
}

/// Truncation keeps the order: of two scalars the lesser has the lesser or
/// the same integer part.
pub proof fn lemma_truncated_monotonic(a: Scalar, b: Scalar)
    requires
        a.less(b),
    ensures
        a.truncated() <= b.truncated(),
{
    lemma_pow2_pos(149);
    lemma_div_is_ordered(a.value(), b.value(), pow2(149) as int);
}

/// What truncation leaves out is less than one: the integer part of a
/// number that is not negative and fits the type, counted in units of
/// 2^-149, is at most the value and within one of it.
pub proof fn lemma_truncated_is_integer_part(a: Scalar)
    requires
        !a.nan(),
        0 <= a.value(),
        a.value() < (u32::MAX + 1) * pow2(149),
    ensures
        a.truncated() * pow2(149) <= a.value() < (a.truncated() + 1) * pow2(149),
{
    let d = pow2(149) as int;
    let v = a.value();
    lemma_pow2_pos(149);
    assert(0 <= v / d && (v / d) * d <= v < (v / d + 1) * d && v / d <= u32::MAX)
        by (nonlinear_arith)
        requires
            0 <= v < (u32::MAX + 1) * d,
            d > 0,
    ;
}

} // verus!
