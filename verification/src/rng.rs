//! The pluggable source of randomness.
//!
//! All random draws of the simulation go through one trusted wrapper
//! around the `rand` crate, so tests and callers can hand in a seeded
//! generator and replay a run.
use vstd::prelude::*;

verus! {

/// The `rand` crate's standard generator, opaque to the verifier.
#[verifier::external_type_specification]
#[verifier::external_body]
pub struct ExStdRng(rand::rngs::StdRng);

/// Relies on rand's `Rng::gen_range` over `0..bound`: it returns a value
/// of the (half-open) range, and panics only when the range is empty.
/// Nothing more is assumed of the draw.
#[verifier::external_body]
pub(crate) fn rand_below(rng: &mut rand::rngs::StdRng, bound: u32) -> (r: u32)
    requires
        bound >= 1,
    ensures
        r < bound,
{
    rand::Rng::gen_range(rng, 0..bound)
}

} // verus!
