//! The one place where chance enters the library.

use rand::Rng;
use vstd::prelude::*;

verus! {

/// Draws a number below `bound` with `rand::Rng::gen_range(0, bound)` on
/// `rand::thread_rng()`. Trusted, and all that is claimed: the result lies
/// in `0..bound`. `gen_range` panics on an empty range, so `bound` must be
/// positive. Which number comes back is left open: two calls may differ.
/// The thread's generator seeds itself from the operating system on first
/// use, and gives up if the system has no randomness to offer.
#[verifier::external_body]
pub(crate) fn random_below(bound: usize) -> (r: usize)
    requires
        bound > 0,
    ensures
        r < bound,
{
    rand::thread_rng().gen_range(0, bound)
}

} // verus!
