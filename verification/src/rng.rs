//! The injected randomness source: a seedable generator from the
//! `rand_chacha` crate, reached through trusted wrappers. Everything the
//! simulation decides from a draw is verified for every value the draw can
//! take.

use vstd::prelude::*;

use rand::Rng;
use rand_chacha::ChaCha8Rng;

verus! {

#[verifier::external_type_specification]
#[verifier::external_body]
pub struct ExChaCha8Rng(ChaCha8Rng);

/// Relies on `rand::Rng::gen_range` over `0..bound`: returns a uniformly
/// drawn value below `bound`, and panics only on an empty range, which the
/// precondition rules out.
#[verifier::external_body]
pub(crate) fn rand_below(rng: &mut ChaCha8Rng, bound: u16) -> (r: u16)
    requires
        bound >= 1,
    ensures
        r < bound,
{
    rng.gen_range(0..bound)
}

} // verus!
