//! Common shared behaviour across complex number forms.

use vstd::prelude::*;
use crate::scalar::Real;

verus! {

/// The capability contract every complex-number form must provide:
/// magnitude, angle and zero test, each pinned to an exact integer
/// model by an associated spec function.
pub trait Shared: Sized {
    /// Whether `absolute` is defined for this value (machine-width
    /// bounds only; every mathematically sensible value satisfies it).
    spec fn abs_wf(&self) -> bool;

    /// The magnitude in units, as an exact integer.
    spec fn abs_spec(&self) -> int;

    /// Whether `argument` is defined for this value.
    spec fn arg_wf(&self) -> bool;

    /// The angle in radian units, as an exact integer.
    spec fn arg_spec(&self) -> int;

    /// Whether the value is the zero complex number.
    spec fn is_zero_spec(&self) -> bool;

    /// Absolute value of the complex number: its distance from zero.
    fn absolute(&self) -> (r: Real)
        requires
            self.abs_wf(),
        ensures
            r as int == self.abs_spec(),
    ;

    /// The argument theta: the angle in radians, in units, from the
    /// positive real axis to the number.
    fn argument(&self) -> (r: Real)
        requires
            self.arg_wf(),
        ensures
            r as int == self.arg_spec(),
    ;

    /// Whether the complex number is zero.
    fn is_zero(&self) -> (r: bool)
        ensures
            r == self.is_zero_spec(),
    ;

    /// A complex number is zero exactly when its magnitude is zero,
    /// whatever else it stores.
    proof fn lemma_zero_iff_absolute_zero(&self)
        requires
            self.abs_wf(),
        ensures
            self.is_zero_spec() <==> self.abs_spec() == 0,
    ;
}

} // verus!
