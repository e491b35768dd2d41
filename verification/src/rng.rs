//! Randomness, drawn from the rand crate behind one trusted wrapper.

use vstd::prelude::*;

use rand::Rng;

verus! {

/// Relies on rand's `thread_rng` and `Rng::gen_range` over the half-open
/// range `lo..hi` of `i64`, which returns a uniformly distributed value
/// in `[lo, hi)` and panics only when the range is empty.
#[verifier::external_body]
pub(crate) fn rand_i64_in(lo: i64, hi: i64) -> (r: i64)
    requires
        lo < hi,
    ensures
        lo <= r < hi,
{
    rand::thread_rng().gen_range(lo..hi)
}

} // verus!
