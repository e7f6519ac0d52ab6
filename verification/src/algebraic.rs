//! The rectangular (algebraic) form of a complex number: a `real` and
//! an `imaginary` component.

use vstd::prelude::*;
use crate::common::Shared;
use crate::polar::Polar;
use crate::scalar::{abs_int, div_trunc, fdiv, fits_i64, isqrt_spec, sign_int, Real, SCALE};
use crate::scalar::{
    div_trunc_i128, div_units, isqrt_u128, lemma_abs_product_bound, lemma_fdiv_le_one,
    lemma_i64_products_fit,
    lemma_isqrt_bounds, lemma_isqrt_monotonic, lemma_isqrt_square, lemma_sq_norm_bounds,
    lemma_square_bounds,
};
use crate::text::{mag_text, push_mag, push_real, real_text};
use crate::trig::{acos_fixed, acos_units};
use vstd::string::StringExecFns;

verus! {

/// The rendering of a rectangular number: the real component, then
/// ` + ` or ` - ` by the sign of the imaginary component, then the
/// magnitude of the imaginary component and `i`.
pub open spec fn algebraic_text(z: Algebraic) -> Seq<char> {
    if z.imaginary >= 0 {
        real_text(z.real as int) + " + "@ + mag_text(z.imaginary as nat) + "i"@
    } else {
        real_text(z.real as int) + " - "@ + mag_text(abs_int(z.imaginary as int) as nat) + "i"@
    }
}

/// Default tolerance of the approximate equality `==`, counted in units
/// in the last place of the fixed-point representation; wide enough to
/// absorb the rounding of the trigonometric conversions.
pub const EQ_TOLERANCE: i64 = 256;

/// Largest component magnitude `div` accepts, so that the scaled
/// 128-bit intermediates of the quotient formula cannot overflow.
pub const DIV_OPERAND_LIMIT: i64 = 0x400000000000;

/// A complex number in rectangular form: `real + imaginary * i`, both
/// components fixed-point scalars.
#[derive(Clone, Copy, Debug)]
pub struct Algebraic {
    pub real: Real,
    pub imaginary: Real,
}

impl Algebraic {
    /// Components avoid the single unpaired value `i64::MIN`, so that
    /// negating either is always defined.
    pub open spec fn wf(self) -> bool {
        self.real > i64::MIN && self.imaginary > i64::MIN
    }

    /// The squared Euclidean norm, in squared units.
    pub open spec fn sq_norm(self) -> int {
        self.real * self.real + self.imaginary * self.imaginary
    }

    /// The complex number with the imaginary component negated.
    pub open spec fn conjugate_spec(self) -> Algebraic {
        Algebraic { real: self.real, imaginary: (-self.imaginary) as i64 }
    }

    /// Real component of the product, in units.
    pub open spec fn mul_real_spec(self, other: Self) -> int {
        div_trunc(self.real * other.real - self.imaginary * other.imaginary, SCALE as int)
    }

    /// Imaginary component of the product, in units.
    pub open spec fn mul_imag_spec(self, other: Self) -> int {
        div_trunc(self.real * other.imaginary + other.real * self.imaginary, SCALE as int)
    }

    /// Real component of the quotient: the product with the conjugate
    /// of the divisor, normalised by the divisor's squared norm.
    pub open spec fn div_real_spec(self, other: Self) -> int {
        div_trunc(
            (self.real * other.real + self.imaginary * other.imaginary) * (SCALE as int),
            other.sq_norm(),
        )
    }

    /// Imaginary component of the quotient.
    pub open spec fn div_imag_spec(self, other: Self) -> int {
        div_trunc(
            (self.imaginary * other.real - self.real * other.imaginary) * (SCALE as int),
            other.sq_norm(),
        )
    }

    /// Instantiate a new rectangular complex number.
    pub fn new(re: Real, im: Real) -> (z: Algebraic)
        ensures
            z.real == re,
            z.imaginary == im,
    {
        Algebraic { real: re, imaginary: im }
    }

    /// The conjugate: same real component, negated imaginary component.
    pub fn conjugate(&self) -> (z: Algebraic)
        requires
            self.imaginary > i64::MIN,
        ensures
            z == self.conjugate_spec(),
            z.real == self.real,
            z.imaginary as int == -(self.imaginary as int),
    {
        Algebraic { real: self.real, imaginary: -self.imaginary }
    }

    /// Componentwise sum.
    pub fn add(&self, other: &Algebraic) -> (z: Algebraic)
        requires
            fits_i64(self.real + other.real),
            fits_i64(self.imaginary + other.imaginary),
        ensures
            z.real as int == self.real + other.real,
            z.imaginary as int == self.imaginary + other.imaginary,
    {
        Algebraic { real: self.real + other.real, imaginary: self.imaginary + other.imaginary }
    }

    /// Componentwise difference.
    pub fn sub(&self, other: &Algebraic) -> (z: Algebraic)
        requires
            fits_i64(self.real - other.real),
            fits_i64(self.imaginary - other.imaginary),
        ensures
            z.real as int == self.real - other.real,
            z.imaginary as int == self.imaginary - other.imaginary,
    {
        Algebraic { real: self.real - other.real, imaginary: self.imaginary - other.imaginary }
    }

    /// Componentwise negation.
    pub fn neg(&self) -> (z: Algebraic)
        requires
            self.wf(),
        ensures
            z.real as int == -(self.real as int),
            z.imaginary as int == -(self.imaginary as int),
    {
        Algebraic { real: -self.real, imaginary: -self.imaginary }
    }

    /// Product, by the distributive expansion with `i * i == -1`.
    pub fn mul(&self, other: &Algebraic) -> (z: Algebraic)
        requires
            self.wf(),
            other.wf(),
            fits_i64(self.mul_real_spec(*other)),
            fits_i64(self.mul_imag_spec(*other)),
        ensures
            z.real as int == self.mul_real_spec(*other),
            z.imaginary as int == self.mul_imag_spec(*other),
    {
        let ar = self.real as i128;
        let ai = self.imaginary as i128;
        let br = other.real as i128;
        let bi = other.imaginary as i128;
        proof {
            lemma_i64_products_fit(ar as int, br as int, ai as int, bi as int);
            lemma_i64_products_fit(ar as int, bi as int, br as int, ai as int);
        }
        let num_re: i128 = ar * br - ai * bi;
        let num_im: i128 = ar * bi + br * ai;
        let re = div_trunc_i128(num_re, SCALE as i128);
        let im = div_trunc_i128(num_im, SCALE as i128);
        Algebraic { real: re as i64, imaginary: im as i64 }
    }

    /// Quotient: multiply by the conjugate of the divisor and normalise
    /// by the divisor's squared norm.
    ///
    /// Fixed-point scalars have no infinities to propagate, so dividing
    /// by the zero complex number is excluded by precondition: callers
    /// test `is_zero()` on the divisor first.
    pub fn div(&self, other: &Algebraic) -> (z: Algebraic)
        requires
            !other.is_zero_spec(),
            abs_int(self.real as int) <= DIV_OPERAND_LIMIT,
            abs_int(self.imaginary as int) <= DIV_OPERAND_LIMIT,
            abs_int(other.real as int) <= DIV_OPERAND_LIMIT,
            abs_int(other.imaginary as int) <= DIV_OPERAND_LIMIT,
            fits_i64(self.div_real_spec(*other)),
            fits_i64(self.div_imag_spec(*other)),
        ensures
            z.real as int == self.div_real_spec(*other),
            z.imaginary as int == self.div_imag_spec(*other),
    {
        let ar = self.real as i128;
        let ai = self.imaginary as i128;
        let br = other.real as i128;
        let bi = other.imaginary as i128;
        proof {
            let l = DIV_OPERAND_LIMIT as int;
            lemma_sq_norm_bounds(br as int, bi as int);
            lemma_i64_products_fit(br as int, br as int, bi as int, bi as int);
            lemma_abs_product_bound(ar as int, br as int, l, l);
            lemma_abs_product_bound(ai as int, bi as int, l, l);
            lemma_abs_product_bound(ai as int, br as int, l, l);
            lemma_abs_product_bound(ar as int, bi as int, l, l);
            assert(0x400000000000 * 0x400000000000 == 0x100000000000000000000000);
            lemma_abs_product_bound(
                (ar as int) * (br as int) + (ai as int) * (bi as int),
                SCALE as int,
                0x200000000000000000000000,
                SCALE as int,
            );
            lemma_abs_product_bound(
                (ai as int) * (br as int) - (ar as int) * (bi as int),
                SCALE as int,
                0x200000000000000000000000,
                SCALE as int,
            );
            assert(0x200000000000000000000000 * 0x100000000
                == 0x20000000000000000000000000000000);
        }
        let den: i128 = br * br + bi * bi;
        let num_re: i128 = (ar * br + ai * bi) * (SCALE as i128);
        let num_im: i128 = (ai * br - ar * bi) * (SCALE as i128);
        let re = div_trunc_i128(num_re, den);
        let im = div_trunc_i128(num_im, den);
        Algebraic { real: re as i64, imaginary: im as i64 }
    }

    /// Approximate equality with a caller-chosen tolerance, counted in
    /// units in the last place of the fixed-point representation.
    pub fn approx_eq(&self, other: &Algebraic, tolerance: Real) -> (r: bool)
        requires
            tolerance >= 0,
        ensures
            r == (abs_int(self.real - other.real) <= tolerance && abs_int(
                self.imaginary - other.imaginary,
            ) <= tolerance),
    {
        let dr: i128 = (self.real as i128) - (other.real as i128);
        let di: i128 = (self.imaginary as i128) - (other.imaginary as i128);
        let adr: i128 = if dr < 0 {
            -dr
        } else {
            dr
        };
        let adi: i128 = if di < 0 {
            -di
        } else {
            di
        };
        adr <= tolerance as i128 && adi <= tolerance as i128
    }

    /// Returns a `String` in the component notation.
    ///
    /// Ex: `2.000000000 + 1.000000000i`, `2.000000000 - 1.000000000i`
    pub fn to_text(&self) -> (s: String)
        ensures
            s@ == algebraic_text(*self),
    {
        let mut s = String::new();
        push_real(&mut s, self.real);
        if self.imaginary >= 0 {
            s.append(" + ");
        } else {
            s.append(" - ");
        }
        let m128: i128 = self.imaginary as i128;
        let mag: u64 = if m128 < 0 {
            (-m128) as u64
        } else {
            m128 as u64
        };
        push_mag(&mut s, mag);
        s.append("i");
        proof {
            assert(s@ =~= algebraic_text(*self));
        }
        s
    }

    /// Package the angle and the magnitude into a polar value.
    ///
    /// Converting back with `to_algebraic` reproduces the original
    /// value within the rounding of the trigonometric conversions (a
    /// tested tolerance, not an exact identity).
    pub fn to_polar(&self) -> (p: Polar)
        requires
            self.arg_wf(),
        ensures
            p.theta as int == self.arg_spec(),
            p.distance as int == self.abs_spec(),
    {
        Polar { theta: self.argument(), distance: self.absolute() }
    }
}

impl Shared for Algebraic {
    /// The magnitude stays representable as a scalar.
    open spec fn abs_wf(&self) -> bool {
        isqrt_spec(self.sq_norm() as nat) <= i64::MAX
    }

    /// The magnitude in units: the integer square root of the squared
    /// norm (in squared units, so no rescaling is needed).
    open spec fn abs_spec(&self) -> int {
        isqrt_spec(self.sq_norm() as nat) as int
    }

    /// The argument is defined away from zero, where the half-plane
    /// ratio exists.
    open spec fn arg_wf(&self) -> bool {
        self.abs_wf() && !self.is_zero_spec()
    }

    /// The angle in units: the arc-cosine of the ratio of the real
    /// component to the magnitude, carried into the half-plane the
    /// imaginary component selects.
    open spec fn arg_spec(&self) -> int {
        sign_int(self.imaginary as int) * acos_fixed(fdiv(self.real as int, self.abs_spec()))
    }

    /// Zero in rectangular form means both components are exactly zero.
    open spec fn is_zero_spec(&self) -> bool {
        self.real == 0 && self.imaginary == 0
    }

    /// The modulus: the Euclidean distance from zero.
    fn absolute(&self) -> (r: Real) {
        proof {
            lemma_square_bounds(self.real as int);
            lemma_square_bounds(self.imaginary as int);
        }
        let rr: i128 = (self.real as i128) * (self.real as i128);
        let ii: i128 = (self.imaginary as i128) * (self.imaginary as i128);
        let s: u128 = (rr as u128) + (ii as u128);
        let q = isqrt_u128(s);
        q as i64
    }

    /// The argument: `acos(real / absolute())`, negated in the lower
    /// half-plane.
    fn argument(&self) -> (r: Real) {
        let a = self.absolute();
        proof {
            lemma_sq_norm_bounds(self.real as int, self.imaginary as int);
            self.lemma_zero_iff_absolute_zero();
            lemma_abs_component_le(self.real as int, self.imaginary as int);
            lemma_fdiv_le_one(self.real as int, self.abs_spec());
        }
        let q = div_units(self.real, a);
        let c = acos_units(q);
        if self.imaginary >= 0 {
            c
        } else {
            -c
        }
    }

    /// Zero test: both components compared with exact zero.
    fn is_zero(&self) -> (r: bool) {
        self.real == 0 && self.imaginary == 0
    }

    proof fn lemma_zero_iff_absolute_zero(&self) {
        lemma_sq_norm_bounds(self.real as int, self.imaginary as int);
        lemma_isqrt_bounds(self.sq_norm() as nat);
        let s = isqrt_spec(self.sq_norm() as nat);
        if self.sq_norm() == 0 {
            assert(s == 0);
        } else {
            if s == 0 {
                assert((s + 1) * (s + 1) == 1) by (nonlinear_arith)
                    requires
                        s == 0,
                ;
                assert(false);
            }
        }
    }
}

/// Each component's magnitude is at most the magnitude of the number.
proof fn lemma_abs_component_le(re: int, im: int)
    ensures
        abs_int(re) <= isqrt_spec((re * re + im * im) as nat),
{
    lemma_sq_norm_bounds(re, im);
    assert(re * re == abs_int(re) * abs_int(re)) by (nonlinear_arith);
    assert(re * re <= re * re + im * im) by (nonlinear_arith);
    lemma_isqrt_square(abs_int(re) as nat);
    lemma_isqrt_monotonic((re * re) as nat, (re * re + im * im) as nat);
}

impl PartialEq for Algebraic {
    /// Tolerance-based componentwise comparison: equal within
    /// `EQ_TOLERANCE` units in the last place on both components.
    fn eq(&self, other: &Self) -> (r: bool) {
        let dr: i128 = (self.real as i128) - (other.real as i128);
        let di: i128 = (self.imaginary as i128) - (other.imaginary as i128);
        let adr: i128 = if dr < 0 {
            -dr
        } else {
            dr
        };
        let adi: i128 = if di < 0 {
            -di
        } else {
            di
        };
        adr <= EQ_TOLERANCE as i128 && adi <= EQ_TOLERANCE as i128
    }
}

impl vstd::std_specs::cmp::PartialEqSpecImpl for Algebraic {
    open spec fn obeys_eq_spec() -> bool {
        true
    }

    open spec fn eq_spec(&self, other: &Self) -> bool {
        abs_int(self.real - other.real) <= EQ_TOLERANCE && abs_int(
            self.imaginary - other.imaginary,
        ) <= EQ_TOLERANCE
    }
}

impl Default for Algebraic {
    /// The zero complex number.
    fn default() -> (z: Self)
        ensures
            z.real == 0,
            z.imaginary == 0,
    {
        Algebraic { real: 0, imaginary: 0 }
    }
}

/// Conjugation is an involution: applied twice it returns the original
/// value exactly.
pub proof fn lemma_conjugate_involution(z: Algebraic)
    requires
        z.wf(),
    ensures
        z.conjugate_spec().conjugate_spec() == z,
{
}

/// The magnitude is conjugation-invariant: a number and its conjugate
/// have the same absolute value, exactly.
pub proof fn lemma_conjugate_absolute(z: Algebraic)
    requires
        z.wf(),
    ensures
        z.conjugate_spec().abs_spec() == z.abs_spec(),
        z.conjugate_spec().abs_wf() == z.abs_wf(),
{
    assert((-z.imaginary) * (-z.imaginary) == z.imaginary * z.imaginary) by (nonlinear_arith);
    assert(z.conjugate_spec().sq_norm() == z.sq_norm());
}

} // verus!
