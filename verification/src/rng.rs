//! Trusted access to the process-wide uniform random source.

use vstd::prelude::*;
use rand::Rng;

verus! {

/// Relies on rand's `Rng::gen_range` over an `i64` half-open range: the
/// draw is uniform in `[lo, hi)`, and the call panics only on an empty
/// range, which the precondition excludes.
#[verifier::external_body]
pub(crate) fn rand_in_range(lo: i64, hi: i64) -> (r: i64)
    requires
        lo < hi,
    ensures
        lo <= r < hi,
{
    rand::thread_rng().gen_range(lo..hi)
}

/// Relies on rand's `Rng::gen_ratio`: true with probability
/// `num / den`, certainly true at `num == den` and certainly false at
/// `num == 0`; the call panics only when `den == 0` or `num > den`,
/// which the precondition excludes.
#[verifier::external_body]
pub(crate) fn rand_ratio(num: u32, den: u32) -> (r: bool)
    requires
        0 < den,
        num <= den,
    ensures
        num == den ==> r,
        num == 0 ==> !r,
{
    rand::thread_rng().gen_ratio(num, den)
}

} // verus!
