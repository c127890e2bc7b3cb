//! Real-valued quantities carried as IEEE 754 binary64 bit patterns.
//!
//! Arithmetic on such numbers is left to the caller. What this crate decides
//! about them rests on order alone, and order can be read off the pattern:
//! among numbers that are not NaN, the numeric order is the order of
//! [`Scalar::rank`], the pattern taken as a sign and a magnitude. That this
//! is the order of the values that the patterns encode is proved in
//! [`rank_orders_the_values`].

use vstd::arithmetic::power2::{
    lemma2_to64, lemma_pow2_adds, lemma_pow2_pos, lemma_pow2_strictly_increases, lemma_pow2_unfold,
    pow2,
};
use vstd::prelude::*;

verus! {

/// The sign bit of a binary64 pattern.
pub const SIGN_BIT: u64 = 0x8000_0000_0000_0000;

/// The pattern of positive infinity; every larger magnitude is a NaN.
pub const INFINITY_BITS: u64 = 0x7FF0_0000_0000_0000;

/// The pattern of the number one.
pub const ONE_BITS: u64 = 0x3FF0_0000_0000_0000;

/// Two to the 52: the weight of the lowest bit of the exponent field, and
/// the hidden leading bit of a normal number's significand.
pub const FRACTION_RANGE: u64 = 0x0010_0000_0000_0000;

/// A binary64 number, held as its bit pattern.
#[derive(Clone, Copy, Debug, PartialEq, Eq, Structural)]
pub struct Scalar {
    pub bits: u64,
}

impl Scalar {
    /// The pattern with the sign bit cleared.
    pub open spec fn magnitude(self) -> int {
        if self.bits >= SIGN_BIT {
            self.bits - SIGN_BIT
        } else {
            self.bits as int
        }
    }

    /// Whether the sign bit is set, which is true of negative zero too.
    pub open spec fn is_sign_negative(self) -> bool {
        self.bits >= SIGN_BIT
    }

    /// Whether the pattern is a NaN.
    pub open spec fn is_nan(self) -> bool {
        self.magnitude() > INFINITY_BITS
    }

    /// An integer that orders the numbers that are not NaN as their values
    /// are ordered. Both zeros have rank 0.
    pub open spec fn rank(self) -> int {
        if self.is_sign_negative() {
            -self.magnitude()
        } else {
            self.magnitude()
        }
    }

    /// Whether the number is neither an infinity nor a NaN.
    pub open spec fn is_finite(self) -> bool {
        self.magnitude() < INFINITY_BITS
    }

    /// The exponent field: eleven bits, biased.
    pub open spec fn exponent(self) -> int {
        self.magnitude() / (FRACTION_RANGE as int)
    }

    /// The fraction field: the low 52 bits.
    pub open spec fn fraction(self) -> int {
        self.magnitude() % (FRACTION_RANGE as int)
    }

    /// The absolute value that a finite pattern encodes, in units of two to
    /// the minus 1074: the fraction alone for a subnormal number, else the
    /// significand with its hidden bit, shifted by the exponent.
    pub open spec fn scaled_magnitude(self) -> int {
        if self.exponent() == 0 {
            self.fraction()
        } else {
            (FRACTION_RANGE + self.fraction()) * pow2((self.exponent() - 1) as nat)
        }
    }

    /// The value that a finite pattern encodes, in units of two to the minus
    /// 1074.
    pub open spec fn scaled_value(self) -> int {
        if self.is_sign_negative() {
            -self.scaled_magnitude()
        } else {
            self.scaled_magnitude()
        }
    }

    /// Numeric `<`, which is false as soon as one side is a NaN.
    pub open spec fn lt(self, other: Scalar) -> bool {
        !self.is_nan() && !other.is_nan() && self.rank() < other.rank()
    }

    /// The absolute value: the same pattern without its sign.
    pub open spec fn abs(self) -> Scalar {
        Scalar { bits: self.magnitude() as u64 }
    }

    /// Whether the number is zero or more. A NaN is not.
    pub open spec fn is_non_negative(self) -> bool {
        !self.is_nan() && self.rank() >= 0
    }

    /// Whether the number lies in the closed interval from zero to one.
    pub open spec fn in_unit_interval(self) -> bool {
        !self.is_nan() && 0 <= self.rank() <= ONE_BITS
    }

    /// The number with the given pattern.
    pub fn from_bits(bits: u64) -> (s: Scalar)
        ensures
            s.bits == bits,
    {
        Scalar { bits }
    }

    /// The pattern of the number.
    pub fn to_bits(self) -> (bits: u64)
        ensures
            bits == self.bits,
    {
        self.bits
    }

    /// Positive zero.
    pub fn zero() -> (s: Scalar)
        ensures
            s.bits == 0,
    {
        Scalar { bits: 0 }
    }

    /// The number one.
    pub fn one() -> (s: Scalar)
        ensures
            s.bits == ONE_BITS,
    {
        Scalar { bits: ONE_BITS }
    }

    /// The absolute value.
    pub fn absolute(self) -> (m: Scalar)
        ensures
            m == self.abs(),
            !m.is_sign_negative(),
            m.is_nan() == self.is_nan(),
            m.rank() == self.magnitude(),
    {
        if self.bits >= SIGN_BIT {
            Scalar { bits: self.bits - SIGN_BIT }
        } else {
            self
        }
    }

    /// Whether the number is a NaN.
    pub fn is_not_a_number(self) -> (b: bool)
        ensures
            b == self.is_nan(),
    {
        self.absolute().bits > INFINITY_BITS
    }

    /// Whether the number is zero or more.
    pub fn at_least_zero(self) -> (b: bool)
        ensures
            b == self.is_non_negative(),
    {
        let m: u64 = self.absolute().bits;
        m <= INFINITY_BITS && (self.bits < SIGN_BIT || m == 0)
    }

    /// Numeric `<`.
    pub fn less_than(self, other: Scalar) -> (b: bool)
        ensures
            b == self.lt(other),
    {
        if self.is_not_a_number() || other.is_not_a_number() {
            return false;
        }
        let a: u64 = self.absolute().bits;
        let b: u64 = other.absolute().bits;
        if self.bits >= SIGN_BIT {
            if other.bits >= SIGN_BIT {
                b < a
            } else {
                a > 0 || b > 0
            }
        } else {
            if other.bits >= SIGN_BIT {
                false
            } else {
                a < b
            }
        }
    }

    /// Whether the number lies in the closed interval from zero to one.
    pub fn is_unit(self) -> (b: bool)
        ensures
            b == self.in_unit_interval(),
    {
        self.at_least_zero() && self.absolute().bits <= ONE_BITS
    }
}

/// Among finite numbers of one sign, the larger pattern encodes the larger
/// absolute value.
proof fn larger_magnitude_is_larger_value(a: Scalar, b: Scalar)
    requires
        a.is_finite(),
        b.is_finite(),
        a.magnitude() < b.magnitude(),
    ensures
        0 <= a.scaled_magnitude() < b.scaled_magnitude(),
{
    let unit = FRACTION_RANGE as int;
    let (e1, f1) = (a.exponent(), a.fraction());
    let (e2, f2) = (b.exponent(), b.fraction());
    assert(a.magnitude() == e1 * unit + f1 && 0 <= f1 < unit && 0 <= e1);
    assert(b.magnitude() == e2 * unit + f2 && 0 <= f2 < unit && 0 <= e2);
    assert(e1 <= e2) by (nonlinear_arith)
        requires
            e1 * unit + f1 < e2 * unit + f2,
            0 <= f1 < unit,
            0 <= f2 < unit,
    ;
    if e1 > 0 {
        lemma_pow2_pos((e1 - 1) as nat);
    }
    if e2 > 0 {
        lemma_pow2_pos((e2 - 1) as nat);
    }
    if e1 == e2 {
        if e1 > 0 {
            let p = pow2((e1 - 1) as nat) as int;
            assert((unit + f1) * p < (unit + f2) * p && 0 <= (unit + f1) * p) by (nonlinear_arith)
                requires
                    0 <= f1 < f2,
                    0 < p,
                    0 < unit,
            ;
        }
    } else {
        let q = pow2((e2 - 1) as nat) as int;
        if e1 == 0 {
            assert(f1 < (unit + f2) * q) by (nonlinear_arith)
                requires
                    0 <= f1 < unit,
                    0 <= f2,
                    1 <= q,
            ;
        } else {
            let p = pow2((e1 - 1) as nat) as int;
            lemma_pow2_unfold(e1 as nat);
            if e1 < e2 - 1 {
                lemma_pow2_strictly_increases(e1 as nat, (e2 - 1) as nat);
            }
            assert(2 * p <= q);
            assert((unit + f1) * p < (unit + f2) * q && 0 <= (unit + f1) * p) by (nonlinear_arith)
                requires
                    0 <= f1 < unit,
                    0 <= f2,
                    0 < p,
                    2 * p <= q,
            ;
        }
    }
}

/// The order of ranks is the order of the values: of two finite numbers the
/// one of lower rank encodes the lower value, and two of the same rank encode
/// the same value. So `lt` is `<` on the numbers themselves.
pub proof fn rank_orders_the_values(a: Scalar, b: Scalar)
    requires
        a.is_finite(),
        b.is_finite(),
    ensures
        a.rank() < b.rank() <==> a.scaled_value() < b.scaled_value(),
        a.rank() == b.rank() <==> a.scaled_value() == b.scaled_value(),
        a.lt(b) <==> a.scaled_value() < b.scaled_value(),
{
    let zero = Scalar { bits: 0 };
    assert(zero.scaled_magnitude() == 0);
    if 0 < a.magnitude() {
        larger_magnitude_is_larger_value(zero, a);
    }
    if 0 < b.magnitude() {
        larger_magnitude_is_larger_value(zero, b);
    }
    if a.magnitude() < b.magnitude() {
        larger_magnitude_is_larger_value(a, b);
    } else if b.magnitude() < a.magnitude() {
        larger_magnitude_is_larger_value(b, a);
    }
}

/// The infinities bound the finite numbers, and a rank from zero to that of
/// one is a value from zero to one: the pattern of one encodes two to the
/// 1074 units.
pub proof fn landmarks_of_the_order(a: Scalar)
    requires
        a.is_finite(),
    ensures
        (Scalar { bits: 0xFFF0_0000_0000_0000 }).lt(a),
        a.lt(Scalar { bits: INFINITY_BITS }),
        (Scalar { bits: 0 }).scaled_value() == 0,
        (Scalar { bits: ONE_BITS }).scaled_value() == pow2(1074),
        a.in_unit_interval() <==> 0 <= a.scaled_value() <= pow2(1074),
{
    let one = Scalar { bits: ONE_BITS };
    assert(one.exponent() == 1023 && one.fraction() == 0);
    assert(pow2(52) == FRACTION_RANGE) by {
        lemma2_to64();
        lemma_pow2_adds(32, 20);
    }
    lemma_pow2_adds(52, 1022);
    assert(one.scaled_value() == pow2(1074));
    rank_orders_the_values(a, one);
    rank_orders_the_values(a, Scalar { bits: 0 });
}

} // verus!
