use vstd::arithmetic::div_mod::{
    lemma_div_is_ordered, lemma_fundamental_div_mod, lemma_fundamental_div_mod_converse,
};
use vstd::prelude::*;

use crate::components::FIXED_ONE;

verus! {

/// The viewport: a half-height in world units, the frame's aspect ratio,
/// and the world point at the center of the screen. All fields are
/// fixed-point with `FIXED_ONE` as one unit; the rendering edge turns them
/// into an orthographic matrix spanning `center ± viewport_size` vertically
/// and `center ± viewport_size * aspect_ratio` horizontally.
#[derive(Copy, Clone, Debug, PartialEq, Eq, Structural)]
pub struct Camera {
    pub viewport_size: i64,
    pub aspect_ratio: i64,
    pub center_x: i64,
    pub center_y: i64,
}

impl Camera {
    /// The starting viewport: five world units half-height, square aspect,
    /// centered on the origin.
    pub fn new() -> (r: Camera)
        ensures
            r == (Camera {
                viewport_size: (5 * FIXED_ONE) as i64,
                aspect_ratio: FIXED_ONE,
                center_x: 0,
                center_y: 0,
            }),
    {
        Camera { viewport_size: 5 * FIXED_ONE, aspect_ratio: FIXED_ONE, center_x: 0, center_y: 0 }
    }
}

/// The point halfway between two coordinates, rounded down; always between
/// them, so it fits whenever they do.
pub open spec fn spec_midpoint(a: i64, b: i64) -> int {
    (a + b) / 2
}

/// The coordinate halfway between `a` and `b`, rounded down.
pub fn midpoint(a: i64, b: i64) -> (r: i64)
    ensures
        r == spec_midpoint(a, b),
{
    let s: i128 = (a as i128) + (b as i128);
    proof {
        lemma_div_is_ordered(2 * (i64::MIN as int), s as int, 2);
        lemma_div_is_ordered(s as int, 2 * (i64::MAX as int), 2);
    }
    let half: i128 = if s >= 0 {
        ((s as u128) / 2) as i128
    } else {
        let m = (-s) as u128;
        let q = (m + 1) / 2;
        proof {
            lemma_fundamental_div_mod((m + 1) as int, 2);
            lemma_fundamental_div_mod_converse(
                s as int,
                2,
                -(q as int),
                1 - ((m + 1) as int % 2),
            );
        }
        -(q as i128)
    };
    half as i64
}

} // verus!
