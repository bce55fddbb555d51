//! The source of randomness: a seedable generator from the `rand` crate,
//! declared for the verifier, with one wrapper that draws a bounded number.
//! Every decision the engine takes is computed in verified code from the
//! numbers this module hands out.

use vstd::prelude::*;
use rand::RngExt;
use rand::rngs::StdRng;

verus! {

/// `rand::rngs::StdRng` is opaque to the verifier; values of it are only
/// carried through and handed to `rand_below`.
#[verifier::external_type_specification]
#[verifier::external_body]
pub struct ExStdRng(StdRng);

/// Relies on rand's `RngExt::random_range` over `0..n`: the sample is drawn
/// from that range, so it is always below `n`. The range must be non-empty,
/// since `random_range` panics on an empty one. Nothing is promised about
/// which value comes back.
#[verifier::external_body]
pub(crate) fn rand_below(rng: &mut StdRng, n: u32) -> (r: u32)
    requires
        n >= 1,
    ensures
        r < n,
{
    rng.random_range(0..n)
}

} // verus!
