//! The crate's one source of randomness: uniform integer draws from the
//! process-wide generator.

use vstd::prelude::*;

verus! {

/// Relies on `rand::random_range` over the `i64` range `lo..hi`: it draws a
/// value uniformly from `[lo, hi)` with the thread-local generator, and panics
/// only when the range is empty.
#[verifier::external_body]
pub(crate) fn sample_uniform(lo: i64, hi: i64) -> (r: i64)
    requires
        lo < hi,
    ensures
        lo <= r < hi,
{
    rand::random_range(lo..hi)
}

} // verus!
