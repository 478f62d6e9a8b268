//! Random draws for cold-start and jitter scoring.
use vstd::prelude::*;

verus! {

/// Relies on rand's `rng` and `Rng::random_range` over the half-open range
/// `lo..hi` of `u64`: a value of that range. `random_range` panics on an empty
/// range, which `requires` rules out.
#[verifier::external_body]
pub(crate) fn draw_in_range(lo: u64, hi: u64) -> (r: u64)
    requires
        lo < hi,
    ensures
        lo <= r < hi,
{
    rand::Rng::random_range(&mut rand::rng(), lo..hi)
}

/// `n` values drawn from `lo..hi`.
pub fn draws_in_range(n: usize, lo: u64, hi: u64) -> (r: Vec<u64>)
    requires
        lo < hi,
    ensures
        r@.len() == n,
        forall|i: int| 0 <= i < n ==> lo <= #[trigger] r@[i] < hi,
{
    let mut r: Vec<u64> = Vec::new();
    let mut i: usize = 0;
    while i < n
        invariant
            i <= n,
            lo < hi,
            r@.len() == i,
            forall|j: int| 0 <= j < i ==> lo <= #[trigger] r@[j] < hi,
        decreases n - i,
    {
        r.push(draw_in_range(lo, hi));
        i += 1;
    }
    r
}

} // verus!
