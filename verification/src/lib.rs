//! Software implementation of IEEE-754 binary128 ("quadruple precision")
//! addition and subtraction, for targets without native quad-precision
//! arithmetic.
//!
//! The kernel decomposes 128-bit operands into sign, exponent and
//! significand, short-circuits special values (NaN, infinity, zero),
//! aligns significands with guard/round/sticky tracking, renormalizes
//! after cancellation or carry, and rounds under an explicit rounding
//! mode. Every step is specified by the spec functions in [`model`] and
//! verified against them.

pub mod arith;
pub mod fenv;
pub mod laws;
pub mod model;
pub mod rep;
