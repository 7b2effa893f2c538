//! Nearest-rank percentiles over sorted fee samples.
use vstd::prelude::*;

verus! {

/// The 1-based nearest rank of percentile `p` among `n` samples,
/// `ceil(p * n / 100)`.
pub open spec fn nearest_rank(n: int, p: int) -> int {
    (p * n + 99) / 100
}

/// The 0-based index that the nearest-rank percentile `p` reads among `n`
/// samples (`n > 0`): the rank less one, kept within `0..n`.
pub open spec fn nearest_rank_index(n: int, p: int) -> int {
    let r = nearest_rank(n, p);
    let i = if r >= 1 { r - 1 } else { 0 };
    if i < n - 1 { i } else { n - 1 }
}

/// The index that `percentile_nearest` reads.
pub fn nearest_rank_index_exec(n: usize, p: u8) -> (i: usize)
    requires
        n > 0,
    ensures
        i == nearest_rank_index(n as int, p as int),
        i < n,
{
    assert((p as u128) * (n as u128) <= 255 * 0xffff_ffff_ffff_ffffu128) by (nonlinear_arith)
        requires
            p <= 255,
            n <= 0xffff_ffff_ffff_ffffu128,
    ;
    let r: u128 = ((p as u128) * (n as u128) + 99) / 100;
    let i: u128 = if r >= 1 { r - 1 } else { 0 };
    if i < (n as u128) - 1 { i as usize } else { n - 1 }
}

/// Nearest-rank percentile of a pre-sorted slice.
/// Returns 0 for empty slices. `p` must be in 0..=100.
pub fn percentile_nearest(sorted: &[u64], p: u8) -> (res: u64)
    ensures
        sorted@.len() == 0 ==> res == 0,
        sorted@.len() > 0 ==> res == sorted@[nearest_rank_index(sorted@.len() as int, p as int)],
{
    if sorted.len() == 0 {
        return 0;
    }
    let i = nearest_rank_index_exec(sorted.len(), p);
    sorted[i]
}

} // verus!
