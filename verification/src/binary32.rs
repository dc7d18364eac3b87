//! Single-precision floating-point numbers as bit patterns, with exact comparisons.

use vstd::arithmetic::power2::{
    lemma_pow2_pos, lemma_pow2_strictly_increases, lemma_pow2_unfold, pow2,
};
use vstd::prelude::*;

verus! {

/// The bits of `0.0`.
pub const ZERO_BITS: u32 = 0x0000_0000;

/// The bits of `1.0`.
pub const ONE_BITS: u32 = 0x3f80_0000;

/// The bits of `-1.0`.
pub const MINUS_ONE_BITS: u32 = 0xbf80_0000;

/// The bits of the machine epsilon, two to the power of -23.
pub const EPSILON_BITS: u32 = 0x3400_0000;

/// The bits of the negated machine epsilon.
pub const MINUS_EPSILON_BITS: u32 = 0xb400_0000;

/// An IEEE 754 binary32 number, held as its bit pattern.
#[derive(Clone, Copy, Debug, PartialEq, Eq, Structural)]
pub struct Binary32 {
    pub bits: u32,
}

/// The magnitude that the low 31 bits of a pattern stand for, in units of the smallest positive
/// number (two to the power of -149). Every finite number is a whole multiple of that unit. The
/// pattern of infinity gets the value that the next exponent would have.
pub open spec fn magnitude_units(low_bits: nat) -> nat {
    let exponent = low_bits / 0x80_0000;
    let fraction = low_bits % 0x80_0000;
    if exponent == 0 {
        fraction
    } else {
        (fraction + 0x80_0000) * pow2((exponent - 1) as nat)
    }
}

impl Binary32 {
    /// Whether the sign bit is set.
    pub open spec fn is_negative(self) -> bool {
        self.bits >= 0x8000_0000
    }

    /// The pattern without its sign bit.
    pub open spec fn low_bits(self) -> nat {
        if self.bits >= 0x8000_0000 {
            (self.bits - 0x8000_0000) as nat
        } else {
            self.bits as nat
        }
    }

    /// Not a number: the exponent field is all ones and the fraction is not zero.
    pub open spec fn nan(self) -> bool {
        self.low_bits() > 0x7f80_0000
    }

    /// Neither infinite nor not a number.
    pub open spec fn finite(self) -> bool {
        self.low_bits() < 0x7f80_0000
    }

    /// The exact value of a number that is not NaN, in units of two to the power of -149.
    pub open spec fn units(self) -> int {
        if self.is_negative() {
            -(magnitude_units(self.low_bits()) as int)
        } else {
            magnitude_units(self.low_bits()) as int
        }
    }

    /// The IEEE 754 comparison `self < other`: false where either is NaN.
    pub open spec fn below(self, other: Binary32) -> bool {
        !self.nan() && !other.nan() && self.units() < other.units()
    }

    /// The IEEE 754 comparison `self <= other`: false where either is NaN.
    pub open spec fn at_most(self, other: Binary32) -> bool {
        !self.nan() && !other.nan() && self.units() <= other.units()
    }

    /// The pattern without its sign bit, negated where the sign bit is set. Patterns that are not
    /// NaN are ordered by it as the numbers are.
    spec fn order_key(self) -> int {
        if self.is_negative() {
            -(self.low_bits() as int)
        } else {
            self.low_bits() as int
        }
    }

    /// Computes `order_key`.
    fn key(self) -> (r: i64)
        ensures
            r == self.order_key(),
            -0x7fff_ffff <= r <= 0x7fff_ffff,
    {
        if self.bits >= 0x8000_0000 {
            -((self.bits - 0x8000_0000) as i64)
        } else {
            self.bits as i64
        }
    }

    /// Whether the number is NaN.
    pub fn is_nan(self) -> (r: bool)
        ensures
            r == self.nan(),
    {
        let key: i64 = self.key();
        key > 0x7f80_0000 || key < -0x7f80_0000
    }

    /// Whether the number is neither infinite nor NaN.
    pub fn is_finite(self) -> (r: bool)
        ensures
            r == self.finite(),
    {
        let key: i64 = self.key();
        key < 0x7f80_0000 && key > -0x7f80_0000
    }

    /// Compares as `<` does on floating-point numbers.
    pub fn is_below(self, other: Binary32) -> (r: bool)
        ensures
            r == self.below(other),
    {
        proof {
            lemma_key_orders(self, other);
        }
        !self.is_nan() && !other.is_nan() && self.key() < other.key()
    }

    /// Compares as `<=` does on floating-point numbers.
    pub fn is_at_most(self, other: Binary32) -> (r: bool)
        ensures
            r == self.at_most(other),
    {
        proof {
            lemma_key_orders(other, self);
        }
        !self.is_nan() && !other.is_nan() && self.key() <= other.key()
    }
}

/// A larger pattern without sign stands for a larger magnitude.
proof fn lemma_magnitude_increases(a: nat, b: nat)
    requires
        a < b,
    ensures
        magnitude_units(a) < magnitude_units(b),
{
    let ea = a / 0x80_0000;
    let fa = a % 0x80_0000;
    let eb = b / 0x80_0000;
    let fb = b % 0x80_0000;
    if eb == 0 {
        assert(ea == 0);
    } else {
        let pb = pow2((eb - 1) as nat);
        lemma_pow2_pos((eb - 1) as nat);
        assert((fb + 0x80_0000) * pb >= 0x80_0000 * pb) by (nonlinear_arith);
        if ea == 0 {
            assert(0x80_0000 * pb >= 0x80_0000) by (nonlinear_arith)
                requires
                    pb > 0,
            ;
        } else {
            let pa = pow2((ea - 1) as nat);
            lemma_pow2_pos((ea - 1) as nat);
            if ea == eb {
                assert((fa + 0x80_0000) * pa < (fb + 0x80_0000) * pa) by (nonlinear_arith)
                    requires
                        fa < fb,
                        pa > 0,
                ;
            } else {
                lemma_pow2_unfold(ea);
                if ea < eb - 1 {
                    lemma_pow2_strictly_increases(ea, (eb - 1) as nat);
                }
                assert((fa + 0x80_0000) * pa < 0x100_0000 * pa) by (nonlinear_arith)
                    requires
                        fa < 0x80_0000,
                        pa > 0,
                ;
                assert(0x80_0000 * pb >= 0x80_0000 * (2 * pa)) by (nonlinear_arith)
                    requires
                        pb >= 2 * pa,
                ;
            }
        }
    }
}

/// Patterns are ordered by their keys as the numbers are by their values.
proof fn lemma_key_orders(a: Binary32, b: Binary32)
    ensures
        a.order_key() < b.order_key() <==> a.units() < b.units(),
{
    assert(magnitude_units(0) == 0);
    if a.low_bits() < b.low_bits() {
        lemma_magnitude_increases(a.low_bits(), b.low_bits());
    } else if b.low_bits() < a.low_bits() {
        lemma_magnitude_increases(b.low_bits(), a.low_bits());
    }
    if a.low_bits() > 0 {
        lemma_magnitude_increases(0, a.low_bits());
    }
    if b.low_bits() > 0 {
        lemma_magnitude_increases(0, b.low_bits());
    }
}

/// Patterns without a sign bit are ordered as the numbers are.
pub(crate) proof fn lemma_positive_patterns_order(a: Binary32, b: Binary32)
    requires
        !a.is_negative(),
        !b.is_negative(),
    ensures
        a.bits < b.bits <==> a.units() < b.units(),
        a.bits <= b.bits <==> a.units() <= b.units(),
{
    lemma_key_orders(a, b);
    lemma_key_orders(b, a);
}

/// The order of two numbers by their patterns. Positive numbers are ordered as their patterns are,
/// negative ones the other way round, and negative ones come before positive ones, except that the
/// two zeros are equal. Patterns above that of infinity are not numbers and compare with nothing.
pub proof fn law_order_by_pattern(a: Binary32, b: Binary32)
    ensures
        a.nan() <==> 0x7f80_0000 < a.bits < 0x8000_0000 || 0xff80_0000 < a.bits,
        a.finite() <==> a.bits < 0x7f80_0000 || 0x8000_0000 <= a.bits < 0xff80_0000,
        a.nan() || b.nan() ==> !a.below(b) && !a.at_most(b),
        !a.nan() && !b.nan() ==> {
            &&& a.bits < 0x8000_0000 && b.bits < 0x8000_0000 ==> {
                &&& a.below(b) <==> a.bits < b.bits
                &&& a.at_most(b) <==> a.bits <= b.bits
            }
            &&& a.bits >= 0x8000_0000 && b.bits >= 0x8000_0000 ==> {
                &&& a.below(b) <==> a.bits > b.bits
                &&& a.at_most(b) <==> a.bits >= b.bits
            }
            &&& a.bits >= 0x8000_0000 && b.bits < 0x8000_0000 ==> {
                &&& a.at_most(b)
                &&& a.below(b) <==> !(a.bits == 0x8000_0000 && b.bits == 0)
            }
            &&& a.bits < 0x8000_0000 && b.bits >= 0x8000_0000 ==> {
                &&& !a.below(b)
                &&& a.at_most(b) <==> a.bits == 0 && b.bits == 0x8000_0000
            }
        },
{
    lemma_key_orders(a, b);
    lemma_key_orders(b, a);
}

/// The value that a sign, an exponent and a fraction stand for: two to the power of the exponent
/// times one and the fraction, or times the fraction alone where the exponent is the least.
pub proof fn law_value_of_fields(negative: bool, exponent: nat, fraction: nat, v: Binary32)
    requires
        exponent < 255,
        fraction < 0x80_0000,
        v.bits == exponent * 0x80_0000 + fraction + (if negative {
            0x8000_0000int
        } else {
            0
        }),
    ensures
        v.finite(),
        exponent == 0 && !negative ==> v.units() == fraction,
        exponent == 0 && negative ==> v.units() == -fraction,
        exponent > 0 && !negative ==> v.units() == (0x80_0000 + fraction) * pow2(
            (exponent - 1) as nat,
        ),
        exponent > 0 && negative ==> v.units() == -((0x80_0000 + fraction) * pow2(
            (exponent - 1) as nat,
        )),
{
    let low = exponent * 0x80_0000 + fraction;
    assert(v.low_bits() == low);
    assert(low / 0x80_0000 == exponent && low % 0x80_0000 == fraction);
}

} // verus!
