//! Random integers, as the `rand` crate draws them.

use rand::Rng;
use vstd::prelude::*;

verus! {

/// Draws an integer with `rand::Rng::gen_range` on `rand::thread_rng()`,
/// over the inclusive range from `lo` to `hi`. The contract claims only that
/// the integer lies in the range: which one comes is chance. `gen_range`
/// panics on an empty range, which `requires` leaves out.
#[verifier::external_body]
pub(crate) fn draw_between(lo: i64, hi: i64) -> (r: i64)
    requires
        lo <= hi,
    ensures
        lo <= r <= hi,
{
    rand::thread_rng().gen_range(lo..=hi)
}

/// A random integer between two bounds, both included, whichever of them is
/// the greater.
pub fn random_between(a: i64, b: i64) -> (r: i64)
    ensures
        a <= b ==> a <= r <= b,
        b <= a ==> b <= r <= a,
{
    if a <= b {
        draw_between(a, b)
    } else {
        draw_between(b, a)
    }
}

} // verus!
