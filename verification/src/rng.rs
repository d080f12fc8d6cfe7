//! The library's one door to the random number generator.

use vstd::prelude::*;

verus! {

/// Relies on `rand::thread_rng` and `rand::Rng::gen_range` on a half-open
/// `i32` range: the draw lies in the range. `gen_range` panics on an empty
/// range, which the precondition rules out; nothing is assumed about which
/// value comes back, so every caller is verified for every outcome.
#[verifier::external_body]
pub(crate) fn random_in_range(lo: i32, hi: i32) -> (r: i32)
    requires
        lo < hi,
    ensures
        lo <= r < hi,
{
    rand::Rng::gen_range(&mut rand::thread_rng(), lo..hi)
}

} // verus!
