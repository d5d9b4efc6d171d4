//! The one source of randomness: a draw from a half-open range.

use vstd::prelude::*;
use rand::Rng;

verus! {

/// Relies on `rand::thread_rng` and `rand::Rng::gen_range`: for a non-empty
/// range `lo..hi` the call returns a value of that range (and panics on an
/// empty one, which the precondition excludes).  Which value comes back
/// depends on the generator's state, so nothing more is stated.
#[verifier::external_body]
pub(crate) fn random_in_range(lo: usize, hi: usize) -> (r: usize)
    requires
        lo < hi,
    ensures
        lo <= r < hi,
{
    rand::thread_rng().gen_range(lo..hi)
}

} // verus!
