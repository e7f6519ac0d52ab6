//! The polar form of a complex number: an angle `theta` (radians) and a
//! `distance` from zero.

use vstd::prelude::*;
use crate::algebraic::Algebraic;
use crate::common::Shared;
use crate::scalar::{abs_int, fdiv, fits_i64, fmul, Real, SCALE};
use crate::scalar::{div_units, lemma_fmul_bound, mul_units};
use crate::text::{push_real, real_text};
use crate::trig::{cos_fixed, cos_units, sin_fixed, sin_units};
use vstd::string::StringExecFns;

verus! {

/// The trigonometric notation of a polar number:
/// `distance(cos(theta) + isin(theta)`.
pub open spec fn trig_text(p: Polar) -> Seq<char> {
    real_text(p.distance as int) + "(cos("@ + real_text(p.theta as int) + ") + isin("@
        + real_text(p.theta as int) + ")"@
}

/// The exponential notation of a polar number: `distance e ^ (theta i)`.
pub open spec fn exp_text(p: Polar) -> Seq<char> {
    real_text(p.distance as int) + "e ^ ("@ + real_text(p.theta as int) + "i)"@
}

/// Largest distance magnitude `to_algebraic` accepts, so that the
/// products with the bounded sine and cosine stay representable.
pub const POLAR_DISTANCE_LIMIT: i64 = 0x3fffffffffffffff;

/// The magnitude of a polar number raised to a nonnegative power:
/// the `n`-fold truncating fixed-point product, starting from one.
pub open spec fn pow_mag(d: int, n: nat) -> int
    decreases n,
{
    if n == 0 {
        SCALE as int
    } else {
        fmul(pow_mag(d, (n - 1) as nat), d)
    }
}

/// The magnitude of a polar number raised to any integer power: a
/// nonnegative power directly, a negative power as the fixed-point
/// reciprocal of the positive one.
pub open spec fn powi_mag(d: int, n: int) -> int
    recommends
        n >= 0 || pow_mag(d, (-n) as nat) != 0,
{
    if n >= 0 {
        pow_mag(d, n as nat)
    } else {
        fdiv(SCALE as int, pow_mag(d, (-n) as nat))
    }
}

/// A complex number in polar form.
///
/// Represents `distance * (cos(theta) + i * sin(theta))`, equally
/// `distance * exp(i * theta)`.  The angle is not normalised into any
/// canonical range, and the distance is not forced to be nonnegative.
#[derive(Clone, Copy, Debug)]
pub struct Polar {
    /// The angle from the positive real axis, in radian units.
    pub theta: Real,
    /// The distance from zero, in units.
    pub distance: Real,
}

impl Polar {
    /// Instantiate a new polar complex number.
    pub fn new(theta: Real, distance: Real) -> (p: Polar)
        ensures
            p.theta == theta,
            p.distance == distance,
    {
        Polar { theta, distance }
    }

    /// Returns a `String` in the trigonometric notation.
    ///
    /// Ex: `6.000000000(cos(1.230000000) + isin(1.230000000)`
    pub fn trigonometric(&self) -> (s: String)
        ensures
            s@ == trig_text(*self),
    {
        let mut s = String::new();
        push_real(&mut s, self.distance);
        s.append("(cos(");
        push_real(&mut s, self.theta);
        s.append(") + isin(");
        push_real(&mut s, self.theta);
        s.append(")");
        proof {
            assert(s@ =~= trig_text(*self));
        }
        s
    }

    /// Returns a `String` in the exponential notation.
    ///
    /// Ex: `6.000000000e ^ (1.230000000i)`
    pub fn exponential(&self) -> (s: String)
        ensures
            s@ == exp_text(*self),
    {
        let mut s = String::new();
        push_real(&mut s, self.distance);
        s.append("e ^ (");
        push_real(&mut s, self.theta);
        s.append("i)");
        proof {
            assert(s@ =~= exp_text(*self));
        }
        s
    }

    /// Convert to the rectangular form:
    /// `distance * cos(theta) + distance * sin(theta) * i`.
    pub fn to_algebraic(&self) -> (z: Algebraic)
        requires
            abs_int(self.distance as int) <= POLAR_DISTANCE_LIMIT,
        ensures
            z.real as int == fmul(self.distance as int, cos_fixed(self.theta as int)),
            z.imaginary as int == fmul(self.distance as int, sin_fixed(self.theta as int)),
    {
        let c = cos_units(self.theta);
        let s = sin_units(self.theta);
        proof {
            lemma_fmul_bound(self.distance as int, c as int, 2);
            lemma_fmul_bound(self.distance as int, s as int, 2);
        }
        Algebraic {
            real: mul_units(self.distance, c),
            imaginary: mul_units(self.distance, s),
        }
    }

    /// Product: magnitudes multiply, angles add.
    pub fn mul(&self, other: &Polar) -> (r: Polar)
        requires
            fits_i64(self.theta + other.theta),
            fits_i64(fmul(self.distance as int, other.distance as int)),
        ensures
            r.theta as int == self.theta + other.theta,
            r.distance as int == fmul(self.distance as int, other.distance as int),
    {
        Polar {
            theta: self.theta + other.theta,
            distance: mul_units(self.distance, other.distance),
        }
    }

    /// Quotient: magnitudes divide, angles subtract.
    ///
    /// Fixed-point scalars have no infinities to propagate, so a
    /// divisor of magnitude zero is excluded by precondition: callers
    /// test `is_zero()` on the divisor first.
    pub fn div(&self, other: &Polar) -> (r: Polar)
        requires
            other.distance != 0,
            fits_i64(self.theta - other.theta),
            fits_i64(fdiv(self.distance as int, other.distance as int)),
        ensures
            r.theta as int == self.theta - other.theta,
            r.distance as int == fdiv(self.distance as int, other.distance as int),
    {
        Polar {
            theta: self.theta - other.theta,
            distance: div_units(self.distance, other.distance),
        }
    }

    /// Raise to an integer power by the closed-form rule: the magnitude
    /// is raised to the power, the angle is multiplied by it.
    pub fn power(&self, exponent: i32) -> (r: Polar)
        requires
            fits_i64(self.theta * exponent),
            forall|k: nat| k <= abs_int(exponent as int) ==> fits_i64(
                #[trigger] pow_mag(self.distance as int, k),
            ),
            exponent < 0 ==> pow_mag(self.distance as int, abs_int(exponent as int) as nat) != 0,
            exponent < 0 ==> fits_i64(powi_mag(self.distance as int, exponent as int)),
        ensures
            r.theta as int == self.theta * exponent,
            r.distance as int == powi_mag(self.distance as int, exponent as int),
    {
        let mag: u64 = if exponent < 0 {
            (-(exponent as i64)) as u64
        } else {
            exponent as u64
        };
        let mut acc: i64 = SCALE;
        let mut i: u64 = 0;
        while i < mag
            invariant
                i <= mag,
                mag == abs_int(exponent as int),
                acc as int == pow_mag(self.distance as int, i as nat),
                forall|k: nat| k <= mag ==> fits_i64(#[trigger] pow_mag(self.distance as int, k)),
            decreases mag - i,
        {
            proof {
                assert(pow_mag(self.distance as int, (i + 1) as nat) == fmul(
                    pow_mag(self.distance as int, i as nat),
                    self.distance as int,
                ));
            }
            acc = mul_units(acc, self.distance);
            i = i + 1;
        }
        let dist: i64 = if exponent < 0 {
            div_units(SCALE, acc)
        } else {
            acc
        };
        proof {
            assert((self.theta as int) * (exponent as int) <= i128::MAX && (self.theta as int) * (
            exponent as int) >= i128::MIN) by (nonlinear_arith)
                requires
                    i64::MIN <= self.theta <= i64::MAX,
                    i32::MIN <= exponent <= i32::MAX,
            ;
        }
        let th: i64 = ((self.theta as i128) * (exponent as i128)) as i64;
        Polar { theta: th, distance: dist }
    }
}

impl Shared for Polar {
    open spec fn abs_wf(&self) -> bool {
        true
    }

    /// The stored distance is the magnitude, read off directly.
    open spec fn abs_spec(&self) -> int {
        self.distance as int
    }

    open spec fn arg_wf(&self) -> bool {
        true
    }

    /// The stored angle is the argument, read off directly.
    open spec fn arg_spec(&self) -> int {
        self.theta as int
    }

    /// Zero in polar form means the magnitude is exactly zero; the
    /// stored angle carries no information then.
    open spec fn is_zero_spec(&self) -> bool {
        self.distance == 0
    }

    fn absolute(&self) -> (r: Real) {
        self.distance
    }

    fn argument(&self) -> (r: Real) {
        self.theta
    }

    fn is_zero(&self) -> (r: bool) {
        self.distance == 0
    }

    proof fn lemma_zero_iff_absolute_zero(&self) {
    }
}

} // verus!
