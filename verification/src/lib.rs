//! Complex numbers in two canonical forms, rectangular (real/imaginary)
//! and polar (angle/magnitude), with the conversions and the arithmetic
//! between them.
//!
//! Every scalar is a fixed-point number: an `i64` count of units of
//! `1 / SCALE`.  All algebraic operations carry exact contracts over that
//! integer model; the trigonometric conversions call into the `cordic`
//! crate behind trusted wrappers.

mod algebraic;
mod common;
mod polar;
mod scalar;
mod text;
mod trig;

pub use crate::algebraic::Algebraic;
pub use crate::common::Shared;
pub use crate::polar::Polar;
pub use crate::scalar::Real;
pub use crate::scalar::SCALE;
