//! IEEE-754 binary64 numbers as bit patterns, with their order.

use vstd::prelude::*;
use vstd::arithmetic::div_mod::{lemma_div_by_multiple, lemma_div_is_ordered};
use vstd::arithmetic::power2::{lemma2_to64, lemma_pow2_adds, lemma_pow2_pos, lemma_pow2_strictly_increases, pow2};
use vstd::bits::{lemma_u64_shl_is_mul, lemma_u64_shr_is_div};

verus! {

/// The sign bit of a binary64 pattern.
pub const SIGN_BIT: u64 = 0x8000_0000_0000_0000;

/// The pattern of positive infinity; every larger magnitude is a NaN.
pub const INFINITY_BITS: u64 = 0x7ff0_0000_0000_0000;

/// The pattern of `1.0`.
pub const ONE_BITS: u64 = 0x3ff0_0000_0000_0000;

/// The pattern of `256.0`, the least number beyond a byte.
pub const BYTE_END_BITS: u64 = 0x4070_0000_0000_0000;

/// Two to the 52nd power: so many fractions a binade holds.
pub const FRACTIONS: u64 = 0x10_0000_0000_0000;

/// An IEEE-754 double-precision number, held as its 64-bit pattern.
///
/// Comparison, selection, negation and absolute value are exact on the
/// pattern. Arithmetic is not offered here.
#[derive(Clone, Copy, Debug)]
pub struct Scalar {
    bits: u64,
}

impl Scalar {
    /// The bit pattern.
    pub closed spec fn view(&self) -> u64 {
        self.bits
    }

    /// The pattern without its sign bit.
    pub open spec fn magnitude(&self) -> int {
        if self@ >= SIGN_BIT {
            self@ - SIGN_BIT
        } else {
            self@ as int
        }
    }

    /// Whether the sign bit is set.
    pub open spec fn negative(&self) -> bool {
        self@ >= SIGN_BIT
    }

    /// Whether the pattern is a NaN.
    pub open spec fn nan(&self) -> bool {
        self.magnitude() > INFINITY_BITS
    }

    /// The place of a number that is not a NaN in the order of the doubles:
    /// its magnitude, negated under a sign bit. Both zeros have rank 0, and
    /// the infinities have the two extreme ranks.
    pub open spec fn rank(&self) -> int {
        if self.negative() {
            -self.magnitude()
        } else {
            self.magnitude()
        }
    }

    /// IEEE `<`: false as soon as either side is a NaN.
    pub open spec fn precedes(&self, other: Scalar) -> bool {
        !self.nan() && !other.nan() && self.rank() < other.rank()
    }

    /// IEEE `<=`: false as soon as either side is a NaN.
    pub open spec fn at_most(&self, other: Scalar) -> bool {
        !self.nan() && !other.nan() && self.rank() <= other.rank()
    }

    /// IEEE `==`: a NaN equals nothing, and the two zeros are equal.
    pub open spec fn same_number(&self, other: Scalar) -> bool {
        !self.nan() && !other.nan() && self.rank() == other.rank()
    }

    /// The smaller of two numbers, a NaN giving way to the other side.
    /// Of two equal numbers it is the first.
    pub open spec fn lesser(a: Scalar, b: Scalar) -> Scalar {
        if a.nan() {
            b
        } else if b.nan() {
            a
        } else if b.precedes(a) {
            b
        } else {
            a
        }
    }

    /// The larger of two numbers, a NaN giving way to the other side.
    /// Of two equal numbers it is the first.
    pub open spec fn greater(a: Scalar, b: Scalar) -> Scalar {
        if a.nan() {
            b
        } else if b.nan() {
            a
        } else if a.precedes(b) {
            b
        } else {
            a
        }
    }

    /// The number whose pattern is `bits`, in contracts.
    pub closed spec fn from_bits_spec(bits: u64) -> Scalar {
        Scalar { bits }
    }

    /// The number whose pattern is `bits`.
    #[verifier::when_used_as_spec(from_bits_spec)]
    pub fn from_bits(bits: u64) -> (s: Self)
        ensures
            s@ == bits,
            s == Scalar::from_bits_spec(bits),
    {
        Self { bits }
    }

    /// The bit pattern of this number.
    pub fn to_bits(&self) -> (bits: u64)
        ensures
            bits == self@,
    {
        self.bits
    }

    /// Positive zero.
    pub fn zero() -> (s: Self)
        ensures
            s == Scalar::from_bits_spec(0),
    {
        Self { bits: 0 }
    }

    /// The number one.
    pub fn one() -> (s: Self)
        ensures
            s == Scalar::from_bits_spec(ONE_BITS),
    {
        Self { bits: ONE_BITS }
    }

    /// Positive infinity.
    pub fn infinity() -> (s: Self)
        ensures
            s == Scalar::from_bits_spec(INFINITY_BITS),
    {
        Self { bits: INFINITY_BITS }
    }

    /// Whether this is a NaN.
    pub fn is_nan(&self) -> (r: bool)
        ensures
            r == self.nan(),
    {
        if self.bits >= SIGN_BIT {
            self.bits - SIGN_BIT > INFINITY_BITS
        } else {
            self.bits > INFINITY_BITS
        }
    }

    /// Whether the sign bit is set.
    pub fn is_sign_negative(&self) -> (r: bool)
        ensures
            r == self.negative(),
    {
        self.bits >= SIGN_BIT
    }

    fn rank_of(&self) -> (k: i64)
        ensures
            k == self.rank(),
    {
        if self.bits >= SIGN_BIT {
            let m: u64 = self.bits - SIGN_BIT;
            -(m as i64)
        } else {
            self.bits as i64
        }
    }

    /// `self < other` as IEEE-754 defines it.
    pub fn lt(&self, other: &Scalar) -> (r: bool)
        ensures
            r == self.precedes(*other),
    {
        !self.is_nan() && !other.is_nan() && self.rank_of() < other.rank_of()
    }

    /// `self <= other` as IEEE-754 defines it.
    pub fn le(&self, other: &Scalar) -> (r: bool)
        ensures
            r == self.at_most(*other),
    {
        !self.is_nan() && !other.is_nan() && self.rank_of() <= other.rank_of()
    }

    /// `self > other` as IEEE-754 defines it.
    pub fn gt(&self, other: &Scalar) -> (r: bool)
        ensures
            r == other.precedes(*self),
    {
        other.lt(self)
    }

    /// `self >= other` as IEEE-754 defines it.
    pub fn ge(&self, other: &Scalar) -> (r: bool)
        ensures
            r == other.at_most(*self),
    {
        other.le(self)
    }

    /// `self == other` as IEEE-754 defines it.
    pub fn same(&self, other: &Scalar) -> (r: bool)
        ensures
            r == self.same_number(*other),
    {
        !self.is_nan() && !other.is_nan() && self.rank_of() == other.rank_of()
    }

    /// The smaller of the two, ignoring a NaN on one side.
    pub fn min(self, other: Scalar) -> (r: Scalar)
        ensures
            r == Scalar::lesser(self, other),
    {
        if self.is_nan() {
            other
        } else if other.is_nan() {
            self
        } else if other.lt(&self) {
            other
        } else {
            self
        }
    }

    /// The larger of the two, ignoring a NaN on one side.
    pub fn max(self, other: Scalar) -> (r: Scalar)
        ensures
            r == Scalar::greater(self, other),
    {
        if self.is_nan() {
            other
        } else if other.is_nan() {
            self
        } else if self.lt(&other) {
            other
        } else {
            self
        }
    }

    /// The number with its sign bit flipped, in contracts.
    pub open spec fn flipped(&self) -> Scalar {
        Scalar::from_bits_spec(
            if self@ >= SIGN_BIT {
                (self@ - SIGN_BIT) as u64
            } else {
                (self@ + SIGN_BIT) as u64
            },
        )
    }

    /// The number with its sign bit flipped.
    pub fn neg(self) -> (r: Scalar)
        ensures
            r == self.flipped(),
            r.magnitude() == self.magnitude(),
            r.negative() == !self.negative(),
    {
        if self.bits >= SIGN_BIT {
            Self { bits: self.bits - SIGN_BIT }
        } else {
            Self { bits: self.bits + SIGN_BIT }
        }
    }

    /// The number with its sign bit cleared.
    pub fn abs(self) -> (r: Scalar)
        ensures
            r@ == self.magnitude(),
    {
        if self.bits >= SIGN_BIT {
            Self { bits: self.bits - SIGN_BIT }
        } else {
            self
        }
    }

    /// The whole part of the absolute value of a number from one on: its
    /// 53-bit significand, shifted to where its exponent puts it.
    pub open spec fn whole(&self) -> nat {
        let exponent = self.magnitude() / (FRACTIONS as int);
        let significand = (FRACTIONS + self.magnitude() % (FRACTIONS as int)) as nat;
        if exponent <= 1075 {
            significand / pow2((1075 - exponent) as nat)
        } else {
            significand * pow2((exponent - 1075) as nat)
        }
    }

    /// The number as a whole number from zero to `top`, the way a cast
    /// gives it: a NaN and everything below one give zero, everything
    /// above `top` gives `top`, and the rest lose what stands behind the
    /// point.
    pub open spec fn cut(&self, top: int) -> int {
        if self.nan() || self.negative() || self.magnitude() < ONE_BITS {
            0
        } else if self.whole() > top {
            top
        } else {
            self.whole() as int
        }
    }

    /// The number as a byte, the way a cast gives it.
    pub fn to_u8(&self) -> (r: u8)
        ensures
            r == self.cut(255),
    {
        if self.is_nan() || self.bits >= SIGN_BIT || self.bits < ONE_BITS {
            return 0;
        }
        if self.bits >= BYTE_END_BITS {
            proof {
                lemma2_to64();
                lemma_whole_grows(*self, 8);
            }
            return 255;
        }
        let bits: u64 = self.bits;
        let exponent: u64 = bits >> 52;
        let fraction: u64 = bits & 0xf_ffff_ffff_ffff;
        assert(exponent == bits / 0x10_0000_0000_0000 && fraction == bits % 0x10_0000_0000_0000) by (bit_vector)
            requires
                exponent == bits >> 52,
                fraction == bits & 0xf_ffff_ffff_ffff,
        ;
        let significand: u64 = fraction + FRACTIONS;
        let shift: u64 = 1075 - exponent;
        let whole: u64 = significand >> shift;
        proof {
            lemma_u64_shr_is_div(significand, shift);
        }
        assert(whole < 256) by (bit_vector)
            requires
                whole == significand >> shift,
                significand < 0x20_0000_0000_0000,
                45 <= shift <= 52,
        ;
        whole as u8
    }

    /// The number as a whole number of the machine's width, the way a
    /// cast gives it.
    pub fn to_usize(&self) -> (r: usize)
        ensures
            r == self.cut(usize::MAX as int),
    {
        if self.is_nan() || self.bits >= SIGN_BIT || self.bits < ONE_BITS {
            return 0;
        }
        let bits: u64 = self.bits;
        let exponent: u64 = bits >> 52;
        let fraction: u64 = bits & 0xf_ffff_ffff_ffff;
        assert(exponent == bits / 0x10_0000_0000_0000 && fraction == bits % 0x10_0000_0000_0000) by (bit_vector)
            requires
                exponent == bits >> 52,
                fraction == bits & 0xf_ffff_ffff_ffff,
        ;
        let significand: u64 = fraction + FRACTIONS;
        let whole: u64 = if exponent <= 1075 {
            let shift: u64 = 1075 - exponent;
            proof {
                lemma_u64_shr_is_div(significand, shift);
            }
            significand >> shift
        } else if exponent <= 1086 {
            let shift: u64 = exponent - 1075;
            proof {
                lemma2_to64();
                if shift < 11 {
                    lemma_pow2_strictly_increases(shift as nat, 11);
                }
                assert(significand * pow2(shift as nat) <= u64::MAX) by (nonlinear_arith)
                    requires
                        significand < 0x20_0000_0000_0000,
                        pow2(shift as nat) <= 2048,
                ;
                lemma_u64_shl_is_mul(significand, shift);
            }
            significand << shift
        } else {
            proof {
                lemma2_to64();
                lemma_whole_grows(*self, 64);
            }
            return usize::MAX;
        };
        if whole > usize::MAX as u64 {
            usize::MAX
        } else {
            whole as usize
        }
    }

    /// What `val` becomes when it is held between `min` and `max`:
    /// `min` where `val < min`, else `max` where `val > max`, else `val`.
    pub open spec fn clamped(val: Scalar, min: Scalar, max: Scalar) -> Scalar {
        if val.precedes(min) {
            min
        } else if max.precedes(val) {
            max
        } else {
            val
        }
    }
}

/// Holds `val` between `min` and `max`. A NaN passes through unchanged.
pub fn clamp(val: Scalar, min: Scalar, max: Scalar) -> (r: Scalar)
    ensures
        r == Scalar::clamped(val, min, max),
{
    if val.lt(&min) {
        min
    } else if val.gt(&max) {
        max
    } else {
        val
    }
}

/// A number from two to the `k`th power on has a whole part of at least
/// two to the `k`th power.
proof fn lemma_whole_grows(a: Scalar, k: nat)
    requires
        !a.negative(),
        k <= 64,
        a.magnitude() >= (1023 + k) * FRACTIONS,
    ensures
        a.whole() >= pow2(k),
{
    let exponent = a.magnitude() / (FRACTIONS as int);
    let significand = (FRACTIONS + a.magnitude() % (FRACTIONS as int)) as nat;
    lemma2_to64();
    assert(pow2(52) == FRACTIONS) by {
        vstd::arithmetic::power2::lemma2_to64_rest();
    }
    assert(exponent >= 1023 + k);
    if exponent <= 1075 {
        let down = pow2((1075 - exponent) as nat);
        let up = pow2((exponent - 1023) as nat);
        lemma_pow2_adds((1075 - exponent) as nat, (exponent - 1023) as nat);
        lemma_pow2_pos((1075 - exponent) as nat);
        assert(down * up == pow2(52));
        assert(up * down == pow2(52)) by (nonlinear_arith)
            requires
                down * up == pow2(52),
        ;
        lemma_div_by_multiple(up as int, down as int);
        lemma_div_is_ordered((up * down) as int, significand as int, down as int);
        if k < exponent - 1023 {
            lemma_pow2_strictly_increases(k, (exponent - 1023) as nat);
        }
    } else {
        let up = pow2((exponent - 1075) as nat);
        lemma_pow2_pos((exponent - 1075) as nat);
        if k <= 52 {
            if k < 52 {
                lemma_pow2_strictly_increases(k, 52);
            }
            assert(significand * up >= significand) by (nonlinear_arith)
                requires
                    up >= 1,
            ;
        } else {
            lemma_pow2_adds(52, (k - 52) as nat);
            if (k - 52) < exponent - 1075 {
                lemma_pow2_strictly_increases((k - 52) as nat, (exponent - 1075) as nat);
            }
            assert(significand * up >= pow2(52) * pow2((k - 52) as nat)) by (nonlinear_arith)
                requires
                    significand >= pow2(52),
                    up >= pow2((k - 52) as nat),
            ;
        }
    }
}

/// The smaller of two numbers is at most each of them and is one of them;
/// so is the larger, the other way round.
pub proof fn lemma_lesser_greater(a: Scalar, b: Scalar)
    requires
        !a.nan(),
        !b.nan(),
    ensures
        Scalar::lesser(a, b).at_most(a),
        Scalar::lesser(a, b).at_most(b),
        Scalar::lesser(a, b) == a || Scalar::lesser(a, b) == b,
        a.at_most(Scalar::greater(a, b)),
        b.at_most(Scalar::greater(a, b)),
        Scalar::greater(a, b) == a || Scalar::greater(a, b) == b,
{
}

} // verus!
