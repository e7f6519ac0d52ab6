//! Trusted bridge to the CORDIC implementations of the trigonometric
//! functions on fixed-point scalars.
//!
//! The scalar of this crate is an `i64` count of units of `1 / SCALE`,
//! which is exactly the raw representation of `fixed::types::I32F32`;
//! each wrapper moves the bits across unchanged and names the value the
//! `cordic` crate computes.  The results are functions of the argument
//! bits alone: `cordic` works on the bits with constant tables and
//! integer shifts, so the same argument always gives the same result.

use vstd::prelude::*;
use crate::scalar::SCALE;

verus! {

/// The value `cordic::cos` returns for an angle of `x` units, in units.
pub uninterp spec fn cos_fixed(x: int) -> int;

/// The value `cordic::sin` returns for an angle of `x` units, in units.
pub uninterp spec fn sin_fixed(x: int) -> int;

/// The value `cordic::acos` returns for a ratio of `x` units, in units.
pub uninterp spec fn acos_fixed(x: int) -> int;

/// Magnitude bound on what `cordic::sin` and `cordic::cos` return:
/// two in value.  The rotation loop scales the start vector
/// `(1 / gain, 0)` by at most the CORDIC gain (below two), so each
/// coordinate stays below two even with the truncation of the shifts.
pub const SIN_COS_BOUND: i64 = 0x200000000;

/// Magnitude bound on what `cordic::acos` returns: 128 in value.  The
/// double-rotation loop runs 32 times and each pass moves the angle by
/// less than twice a table entry, and every table entry is a `U0F64`,
/// below one; a quarter turn more stays well below 128.
pub const ACOS_BOUND: i64 = 0x8000000000;

/// Relies on `cordic::cos`: the cosine of an angle given in `I32F32`
/// units, computed from the argument bits alone.
#[verifier::external_body]
pub(crate) fn cos_units(x: i64) -> (r: i64)
    ensures
        r as int == cos_fixed(x as int),
        -SIN_COS_BOUND <= r <= SIN_COS_BOUND,
{
    cordic::cos(fixed::types::I32F32::from_bits(x)).to_bits()
}

/// Relies on `cordic::sin`: the sine of an angle given in `I32F32`
/// units, computed from the argument bits alone.
#[verifier::external_body]
pub(crate) fn sin_units(x: i64) -> (r: i64)
    ensures
        r as int == sin_fixed(x as int),
        -SIN_COS_BOUND <= r <= SIN_COS_BOUND,
{
    cordic::sin(fixed::types::I32F32::from_bits(x)).to_bits()
}

/// Relies on `cordic::acos`: the arc-cosine of a ratio given in
/// `I32F32` units, computed from the argument bits alone.  The ratio
/// must lie in the closed interval from minus one to one, where the
/// `cordic` iteration keeps all its intermediate values in range.
#[verifier::external_body]
pub(crate) fn acos_units(x: i64) -> (r: i64)
    requires
        -SCALE <= x <= SCALE,
    ensures
        r as int == acos_fixed(x as int),
        -ACOS_BOUND <= r <= ACOS_BOUND,
{
    cordic::acos(fixed::types::I32F32::from_bits(x)).to_bits()
}

} // verus!
