//! The single source of randomness the resolver consumes.

use vstd::prelude::*;

verus! {

/// Relies on rand's `thread_rng` and `Rng::gen_range`: sampling the range
/// `0..bound` yields a value of that range, and the range is non-empty
/// because `bound` is positive. Nothing more is assumed of the draw: every
/// caller must cope with every value below the bound.
#[verifier::external_body]
pub(crate) fn random_below(bound: u32) -> (r: u32)
    requires
        bound > 0,
    ensures
        r < bound,
{
    rand::Rng::gen_range(&mut rand::thread_rng(), 0..bound)
}

} // verus!
