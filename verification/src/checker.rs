//! Checkerboard pattern on the floor plane.
//!
//! The plane's material color alternates between the material's own color
//! and black in half-unit tiles of the X-Z plane: a hit point belongs to
//! the tile `(floor(2x), floor(2z))`, and the tile keeps the base color
//! exactly when the sum of its two coordinates is even.

use vstd::prelude::*;

verus! {

/// Whether the tile with coordinates `fx`, `fz` keeps the material's base
/// color: even-parity tiles do, odd-parity tiles are rendered black.
pub open spec fn cell_keeps_color(fx: int, fz: int) -> bool {
    (fx + fz) % 2 == 0
}

/// Evenness of an `i64`, stated over the mathematical integer it denotes.
fn is_even(n: i64) -> (b: bool)
    ensures
        b == ((n as int) % 2 == 0),
{
    n % 2 == 0
}

/// Decide the checkerboard tile for a plane hit whose tile coordinates are
/// `fx` and `fz` (the integer floors of twice the hit point's x and z
/// coordinates): returns whether the tile keeps the material's base color.
pub fn checker_keeps_color(fx: i64, fz: i64) -> (keep: bool)
    ensures
        keep == cell_keeps_color(fx as int, fz as int),
{
    is_even(fx) == is_even(fz)
}

} // verus!
