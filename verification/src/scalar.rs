//! Single-precision numbers held as their IEEE 754 bit patterns.
//!
//! Every number that is not a NaN is a whole multiple of `2^-149`, the smallest
//! positive subnormal, so an integer count of those units says exactly what a
//! pattern stands for. Comparisons are stated over that count.
use vstd::arithmetic::power2::{
    lemma_pow2_adds, lemma_pow2_pos, lemma_pow2_strictly_increases, lemma_pow2_unfold, pow2,
};
use vstd::prelude::*;

verus! {

/// The sign bit of a pattern.
pub const SIGN: u32 = 0x8000_0000;

/// The pattern of positive infinity; larger magnitudes are NaNs.
pub const INFINITY: u32 = 0x7f80_0000;

/// The weight of the lowest exponent bit.
pub const FRACTION: u32 = 0x0080_0000;

/// A single-precision number as its bit pattern.
///
/// `==` on this type compares patterns; [`Scalar::lt`] compares numbers.
#[derive(Clone, Copy, Debug, PartialEq, Eq, Structural)]
pub struct Scalar {
    pub bits: u32,
}

/// The pattern of zero.
pub const ZERO: u32 = 0x0000_0000;

/// The pattern of one.
pub const ONE: u32 = 0x3f80_0000;

/// The number of `2^-149` units that a pattern without its sign bit stands for.
/// Infinity counts as one step past the largest finite number.
pub open spec fn magnitude_units(magnitude: int) -> int {
    let exponent = magnitude / (FRACTION as int);
    let fraction = magnitude % (FRACTION as int);
    if exponent == 0 {
        fraction
    } else {
        (FRACTION + fraction) * pow2((exponent - 1) as nat)
    }
}

impl Scalar {
    pub open spec fn is_negative(self) -> bool {
        self.bits >= SIGN
    }

    /// The pattern without its sign bit.
    pub open spec fn magnitude(self) -> int {
        if self.is_negative() {
            self.bits - SIGN
        } else {
            self.bits as int
        }
    }

    pub open spec fn is_nan(self) -> bool {
        self.magnitude() > INFINITY
    }

    /// The number itself, counted in units of `2^-149`.
    pub open spec fn units(self) -> int {
        if self.is_negative() {
            -magnitude_units(self.magnitude())
        } else {
            magnitude_units(self.magnitude())
        }
    }

    pub open spec fn is_finite(self) -> bool {
        self.magnitude() < INFINITY
    }

    /// Whether two patterns stand for the same number; a NaN stands for none.
    pub open spec fn equals(self, other: Self) -> bool {
        !self.is_nan() && !other.is_nan() && self.units() == other.units()
    }

    /// The order of the numbers; a NaN stands in no order to anything.
    pub open spec fn less(self, other: Self) -> bool {
        !self.is_nan() && !other.is_nan() && self.units() < other.units()
    }

    /// The nearest number of `[low, high]`; a NaN stays as it is.
    pub open spec fn clamped(self, low: Self, high: Self) -> Self {
        if self.less(low) {
            low
        } else if high.less(self) {
            high
        } else {
            self
        }
    }

    /// The same number with its sign dropped.
    pub open spec fn absolute(self) -> Self {
        Scalar { bits: self.magnitude() as u32 }
    }

    /// `self < other`
    pub fn lt(self, other: Scalar) -> (r: bool)
        ensures
            r == self.less(other),
    {
        let a: u32 = if self.bits >= SIGN { self.bits - SIGN } else { self.bits };
        let b: u32 = if other.bits >= SIGN { other.bits - SIGN } else { other.bits };
        if a > INFINITY || b > INFINITY {
            return false;
        }
        proof {
            lemma_units_follow_magnitude(a as int, b as int);
            lemma_units_follow_magnitude(b as int, a as int);
            lemma_units_follow_magnitude(0, a as int);
            lemma_units_follow_magnitude(0, b as int);
            lemma_zero_units();
        }
        if self.bits >= SIGN {
            if other.bits >= SIGN {
                b < a
            } else {
                a != 0 || b != 0
            }
        } else {
            if other.bits >= SIGN {
                false
            } else {
                a < b
            }
        }
    }

    /// Whether both are the same number; the two zeros are.
    pub fn same_number(self, other: Scalar) -> (r: bool)
        ensures
            r == self.equals(other),
    {
        let a: u32 = if self.bits >= SIGN { self.bits - SIGN } else { self.bits };
        let b: u32 = if other.bits >= SIGN { other.bits - SIGN } else { other.bits };
        if a > INFINITY || b > INFINITY {
            return false;
        }
        proof {
            lemma_units_follow_magnitude(a as int, b as int);
            lemma_units_follow_magnitude(b as int, a as int);
            lemma_units_follow_magnitude(0, a as int);
            lemma_units_follow_magnitude(0, b as int);
            lemma_zero_units();
        }
        a == b && (a == 0 || self.bits == other.bits)
    }

    /// Whether the number is neither infinite nor a NaN.
    pub fn finite(self) -> (r: bool)
        ensures
            r == self.is_finite(),
    {
        if self.bits >= SIGN {
            self.bits - SIGN < INFINITY
        } else {
            self.bits < INFINITY
        }
    }

    /// `self.abs()`
    pub fn abs(self) -> (r: Scalar)
        ensures
            r == self.absolute(),
            r.is_nan() == self.is_nan(),
            r.units() == (if self.units() < 0 { -self.units() } else { self.units() }),
    {
        proof {
            lemma_zero_units();
            lemma_units_follow_magnitude(0, self.magnitude());
        }
        if self.bits >= SIGN {
            Scalar { bits: self.bits - SIGN }
        } else {
            self
        }
    }

    /// `self.clamp(low, high)`
    pub fn clamp(self, low: Scalar, high: Scalar) -> (r: Scalar)
        requires
            !high.less(low),
            !low.is_nan(),
            !high.is_nan(),
        ensures
            r == self.clamped(low, high),
            !self.is_nan() ==> !r.less(low) && !high.less(r),
    {
        if self.lt(low) {
            low
        } else if high.lt(self) {
            high
        } else {
            self
        }
    }
}

proof fn lemma_zero_units()
    ensures
        magnitude_units(0) == 0,
{
}

/// One is `2^149` units, as a unit is `2^-149`.
pub proof fn lemma_one_in_units()
    ensures
        (Scalar { bits: ONE }).units() == pow2(149),
        !(Scalar { bits: ONE }).is_nan(),
{
    vstd::arithmetic::power2::lemma2_to64();
    lemma_pow2_adds(23, 126);
}

/// A larger magnitude stands for a larger number.
pub proof fn lemma_units_follow_magnitude(a: int, b: int)
    requires
        0 <= a,
        0 <= b,
    ensures
        a < b ==> magnitude_units(a) < magnitude_units(b),
{
    if a < b {
        let unit = FRACTION as int;
        let (ea, fa) = (a / unit, a % unit);
        let (eb, fb) = (b / unit, b % unit);
        assert(a == ea * unit + fa && b == eb * unit + fb);
        assert(ea <= eb);
        if ea == eb {
            assert(fa < fb);
            if ea > 0 {
                let p = pow2((ea - 1) as nat);
                lemma_pow2_pos((ea - 1) as nat);
                assert((unit + fa) * p < (unit + fb) * p) by (nonlinear_arith)
                    requires
                        fa < fb,
                        p > 0,
                ;
            }
        } else {
            let pb = pow2((eb - 1) as nat);
            lemma_pow2_pos((eb - 1) as nat);
            assert(unit * pb <= (unit + fb) * pb) by (nonlinear_arith)
                requires
                    0 <= fb,
                    pb > 0,
            ;
            if ea == 0 {
                assert(fa < unit * pb) by (nonlinear_arith)
                    requires
                        fa < unit,
                        unit > 0,
                        pb > 0,
                ;
            } else {
                let pa = pow2((ea - 1) as nat);
                lemma_pow2_pos((ea - 1) as nat);
                lemma_pow2_unfold(ea as nat);
                assert(pow2(ea as nat) == 2 * pa);
                if ea < eb - 1 {
                    lemma_pow2_strictly_increases(ea as nat, (eb - 1) as nat);
                }
                assert(2 * pa <= pb);
                assert((unit + fa) * pa < unit * pb) by (nonlinear_arith)
                    requires
                        fa < unit,
                        0 <= fa,
                        pa > 0,
                        2 * pa <= pb,
                ;
            }
        }
    }
}

} // verus!
