//! Fixed-point sine and cosine on whole degrees.
//!
//! The half-wave `[0, 180]` degrees uses the rational approximation
//! `sin d ~= 4 d (180 - d) / (40500 - d (180 - d))`, which is exact at
//! 0, 30, 90, 150 and 180 degrees and within about 0.2% elsewhere; the
//! second half-wave is its negation.  Results are scaled by `FP`.
use vstd::prelude::*;

use crate::config::FP;

verus! {

/// Scaled sine of `d` degrees for `d` in `[0, 180]`: a value in `[0, FP]`.
pub open spec fn sin_half(d: int) -> int {
    (4 * (d * (180 - d)) * FP) / (40500 - d * (180 - d))
}

/// Scaled sine of `d` degrees for `d` in `[0, 360)`.
pub open spec fn sin_deg(d: int) -> int {
    if d <= 180 {
        sin_half(d)
    } else {
        -sin_half(d - 180)
    }
}

/// Scaled cosine of `d` degrees for `d` in `[0, 360)`, as the sine a
/// quarter turn ahead.
pub open spec fn cos_deg(d: int) -> int {
    if d < 270 {
        sin_deg(d + 90)
    } else {
        sin_deg(d - 270)
    }
}

/// The product `d * (180 - d)` stays within `[0, 8100]` on the half-wave.
proof fn lemma_hump_bounds(d: int)
    by (nonlinear_arith)
    requires
        0 <= d <= 180,
    ensures
        0 <= d * (180 - d) <= 8100,
{
}

/// On the half-wave the scaled sine lies in `[0, FP]`.
pub proof fn lemma_sin_half_bounds(d: int)
    requires
        0 <= d <= 180,
    ensures
        0 <= sin_half(d) <= FP,
{
    lemma_hump_bounds(d);
    let q = d * (180 - d);
    let num = 4 * q * FP;
    let den = 40500 - q;
    assert(num <= den * (FP as int));
    crate::lemma_div_bound(num, den, FP as int);
}

/// The scaled sine of any heading lies in `[-FP, FP]`.
pub proof fn lemma_sin_deg_bounds(d: int)
    requires
        0 <= d < 360,
    ensures
        -FP <= sin_deg(d) <= FP,
{
    if d <= 180 {
        lemma_sin_half_bounds(d);
    } else {
        lemma_sin_half_bounds(d - 180);
    }
}

/// The scaled cosine of any heading lies in `[-FP, FP]`.
pub proof fn lemma_cos_deg_bounds(d: int)
    requires
        0 <= d < 360,
    ensures
        -FP <= cos_deg(d) <= FP,
{
    if d < 270 {
        lemma_sin_deg_bounds(d + 90);
    } else {
        lemma_sin_deg_bounds(d - 270);
    }
}

/// Scaled sine on the half-wave, computed exactly as `sin_half` states.
fn sin_half_fixed(d: u32) -> (r: u32)
    requires
        d <= 180,
    ensures
        r == sin_half(d as int),
        r <= FP,
{
    proof {
        lemma_hump_bounds(d as int);
    }
    let q: u32 = d * (180 - d);
    let num: u32 = 4 * q * FP;
    let den: u32 = 40500 - q;
    let r: u32 = num / den;
    proof {
        lemma_sin_half_bounds(d as int);
    }
    r
}

/// Scaled sine of a heading in degrees.
pub fn sin_fixed(d: u32) -> (r: i32)
    requires
        d < 360,
    ensures
        r == sin_deg(d as int),
        -FP <= r <= FP,
{
    if d <= 180 {
        sin_half_fixed(d) as i32
    } else {
        -(sin_half_fixed(d - 180) as i32)
    }
}

/// Scaled cosine of a heading in degrees.
pub fn cos_fixed(d: u32) -> (r: i32)
    requires
        d < 360,
    ensures
        r == cos_deg(d as int),
        -FP <= r <= FP,
{
    if d < 270 {
        sin_fixed(d + 90)
    } else {
        sin_fixed(d - 270)
    }
}

} // verus!
