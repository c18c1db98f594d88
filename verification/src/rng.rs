//! The one tie to the random number generator: a bounded draw.

use vstd::prelude::*;
use rand::Rng;

verus! {

/// Relies on `rand::thread_rng` and `rand::Rng::gen_range`: the draw lies in
/// the half-open range `0..bound`.  `gen_range` panics only on an empty
/// range, which `bound > 0` rules out.  Nothing beyond the range is promised
/// of the draw.
#[verifier::external_body]
pub(crate) fn random_below(bound: u64) -> (r: u64)
    requires
        bound > 0,
    ensures
        r < bound,
{
    rand::thread_rng().gen_range(0..bound)
}

} // verus!
