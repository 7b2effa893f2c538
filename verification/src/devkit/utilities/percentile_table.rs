//! A table of the usual fee percentiles.
use vstd::prelude::*;
use crate::order::{lemma_same_elements, lemma_sorted_of_exists, lemma_sorted_of_len, sort_u64, sorted_of};
use crate::tracker::percentile::{nearest_rank_index, nearest_rank_index_exec};

verus! {

/// Fee values at the 10th to 99th nearest-rank percentiles.
#[derive(Debug, Clone, PartialEq, Eq, Structural)]
pub struct PercentileTable {
    pub p10: u64,
    pub p20: u64,
    pub p30: u64,
    pub p40: u64,
    pub p50: u64,
    pub p60: u64,
    pub p70: u64,
    pub p80: u64,
    pub p90: u64,
    pub p95: u64,
    pub p99: u64,
}

/// The nearest-rank percentile `p` of `fees` once sorted (`fees` nonempty).
pub open spec fn table_entry(fees: Seq<u64>, p: int) -> u64 {
    sorted_of(fees)[nearest_rank_index(fees.len() as int, p)]
}

proof fn lemma_rank_index_monotone(n: int, p: int, q: int)
    requires
        n > 0,
        0 <= p <= q,
    ensures
        0 <= nearest_rank_index(n, p) <= nearest_rank_index(n, q) < n,
{
    assert(p * n + 99 <= q * n + 99) by (nonlinear_arith)
        requires
            0 <= p <= q,
            n > 0,
    ;
    assert((p * n + 99) / 100 <= (q * n + 99) / 100) by (nonlinear_arith)
        requires
            p * n + 99 <= q * n + 99,
            p * n + 99 >= 0,
    ;
}

/// A higher percentile never reads a lower fee, and every percentile is
/// one of the fees.
pub proof fn lemma_table_entries_ordered(fees: Seq<u64>, p: int, q: int)
    requires
        fees.len() > 0,
        0 <= p <= q,
    ensures
        table_entry(fees, p) <= table_entry(fees, q),
        fees.contains(table_entry(fees, p)),
{
    lemma_sorted_of_exists(fees);
    lemma_sorted_of_len(fees);
    lemma_rank_index_monotone(fees.len() as int, p, q);
    let t = sorted_of(fees);
    let i = nearest_rank_index(fees.len() as int, p);
    assert(t.contains(t[i]));
    lemma_same_elements(t, fees, t[i]);
}

impl PercentileTable {
    /// Build a `PercentileTable` from a slice of fee values.
    /// The input slice is sorted internally; it does not need to be pre-sorted.
    /// Returns `None` for empty slices.
    pub fn build(fees: &[u64]) -> (res: Option<Self>)
        ensures
            res is None <==> fees@.len() == 0,
            res matches Some(t) ==> {
                &&& t.p10 == table_entry(fees@, 10)
                &&& t.p20 == table_entry(fees@, 20)
                &&& t.p30 == table_entry(fees@, 30)
                &&& t.p40 == table_entry(fees@, 40)
                &&& t.p50 == table_entry(fees@, 50)
                &&& t.p60 == table_entry(fees@, 60)
                &&& t.p70 == table_entry(fees@, 70)
                &&& t.p80 == table_entry(fees@, 80)
                &&& t.p90 == table_entry(fees@, 90)
                &&& t.p95 == table_entry(fees@, 95)
                &&& t.p99 == table_entry(fees@, 99)
            },
    {
        if fees.len() == 0 {
            return None;
        }
        let sorted = sort_u64(fees);
        let n = sorted.len();
        Some(PercentileTable {
            p10: sorted[nearest_rank_index_exec(n, 10)],
            p20: sorted[nearest_rank_index_exec(n, 20)],
            p30: sorted[nearest_rank_index_exec(n, 30)],
            p40: sorted[nearest_rank_index_exec(n, 40)],
            p50: sorted[nearest_rank_index_exec(n, 50)],
            p60: sorted[nearest_rank_index_exec(n, 60)],
            p70: sorted[nearest_rank_index_exec(n, 70)],
            p80: sorted[nearest_rank_index_exec(n, 80)],
            p90: sorted[nearest_rank_index_exec(n, 90)],
            p95: sorted[nearest_rank_index_exec(n, 95)],
            p99: sorted[nearest_rank_index_exec(n, 99)],
        })
    }
}

} // verus!
