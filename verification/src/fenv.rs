//! The floating-point-environment oracle consumed by the kernel: the
//! active rounding mode and the advisory "inexact" flag.
//!
//! On targets without a controllable floating-point environment the
//! oracle is a constant stub: the rounding mode is always round to
//! nearest, ties to even, and raising "inexact" is a no-op. The
//! arithmetic itself takes the mode as an explicit parameter, so it
//! stays a pure function of its inputs; these stubs only serve the
//! default-configuration entry points.

use vstd::prelude::*;

verus! {

/// The four IEEE-754 rounding directions.
#[derive(Clone, Copy, Debug)]
pub enum RoundMode {
    /// Round to nearest, ties to even (the IEEE-754 default).
    ToNearest,
    /// Round toward negative infinity.
    Downward,
    /// Round toward positive infinity.
    Upward,
    /// Round toward zero.
    TowardZero,
}

/// Queries the active rounding mode. Without a floating-point control
/// register to read, this always reports the IEEE-754 default.
pub fn fe_getround() -> (r: RoundMode)
    ensures
        r == RoundMode::ToNearest,
{
    RoundMode::ToNearest
}

/// Signals the advisory "inexact" flag. Without a floating-point status
/// register to write, this is a no-op and reports zero.
pub fn fe_raise_inexact() -> (r: i32)
    ensures
        r == 0,
{
    0
}

} // verus!
