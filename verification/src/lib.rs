//! A slime-mold style trail simulation: point agents roam a bounded 2D
//! scalar field, steer toward strong trails, and deposit onto the field as
//! they pass, while the field itself diffuses and decays each tick.
//!
//! All quantities are fixed-point integers: a real value `v` is stored as
//! `v * FP` with `FP = 1024`.  Headings are whole degrees in `[0, 360)`.

use vstd::prelude::*;

pub mod config;
pub mod field;
pub mod laws;
pub mod rng;
pub mod simulation;
pub mod trig;

verus! {

/// A nonnegative numerator divided by a positive denominator stays within
/// any bound that the numerator respects times the denominator.
pub proof fn lemma_div_bound(num: int, den: int, bound: int)
    requires
        0 <= num,
        0 < den,
        num <= den * bound,
    ensures
        0 <= num / den <= bound,
{
    vstd::arithmetic::div_mod::lemma_div_pos_is_pos(num, den);
    vstd::arithmetic::div_mod::lemma_div_is_ordered(num, den * bound, den);
    vstd::arithmetic::div_mod::lemma_div_multiples_vanish(bound, den);
}

} // verus!
