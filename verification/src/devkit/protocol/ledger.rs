//! Ledger sequence checks.
use vstd::prelude::*;
use crate::order::{sort_u64, sorted, sorted_of};

verus! {

/// A detected gap in a ledger sequence.
#[derive(Debug, Clone, Copy, PartialEq, Eq, Structural)]
pub struct LedgerGap {
    pub from: u64,
    pub to: u64,
}

/// The gaps between consecutive values of `t`: each pair of neighbours
/// more than one apart, in order.
pub open spec fn gaps_in(t: Seq<u64>) -> Seq<LedgerGap>
    decreases t.len(),
{
    if t.len() < 2 {
        Seq::empty()
    } else {
        let rest = gaps_in(t.drop_last());
        let a = t[t.len() - 2];
        let b = t.last();
        if b >= a && b - a > 1 {
            rest.push(LedgerGap { from: a, to: b })
        } else {
            rest
        }
    }
}

/// Validate that a sequence of ledger numbers is contiguous without gaps:
/// returns each gap between consecutive ledgers once sorted.
pub fn validate_ledger_sequence(sequences: &[u64]) -> (res: Vec<LedgerGap>)
    ensures
        res@ == gaps_in(sorted_of(sequences@)),
{
    if sequences.len() < 2 {
        proof {
            let t = sorted_of(sequences@);
            crate::order::lemma_sorted_of_len(sequences@);
        }
        return Vec::new();
    }
    let sorted_v = sort_u64(sequences);
    let mut gaps: Vec<LedgerGap> = Vec::new();
    for k in 1..sorted_v.len()
        invariant
            sorted_v.len() >= 2,
            gaps@ == gaps_in(sorted_v@.take(k as int)),
    {
        let a = sorted_v[k - 1];
        let b = sorted_v[k];
        proof {
            let t = sorted_v@.take(k + 1);
            assert(t.drop_last() =~= sorted_v@.take(k as int));
            assert(t[t.len() - 2] == a);
            assert(t.last() == b);
        }
        match b.checked_sub(a) {
            Some(diff) => {
                if diff > 1 {
                    gaps.push(LedgerGap { from: a, to: b });
                }
            },
            None => {},
        }
    }
    assert(sorted_v@.take(sorted_v.len() as int) =~= sorted_v@);
    gaps
}

/// Each reported gap names two ledgers of the input, more than one apart,
/// with no ledger of the input strictly between them.
pub proof fn lemma_gaps_are_missing_ranges(s: Seq<u64>, g: int)
    requires
        0 <= g < gaps_in(sorted_of(s)).len(),
    ensures
        ({
            let gap = gaps_in(sorted_of(s))[g];
            &&& s.contains(gap.from)
            &&& s.contains(gap.to)
            &&& gap.to - gap.from > 1
            &&& forall|i: int| 0 <= i < s.len() ==> !(gap.from < #[trigger] s[i] < gap.to)
        }),
{
    let t = sorted_of(s);
    crate::order::lemma_sorted_of_exists(s);
    let k = lemma_gap_position(t, g);
    let gap = gaps_in(t)[g];
    assert(t.contains(gap.from) && t.contains(gap.to)) by {
        assert(t[k] == gap.from);
        assert(t[k + 1] == gap.to);
    }
    crate::order::lemma_same_elements(t, s, gap.from);
    crate::order::lemma_same_elements(t, s, gap.to);
    assert forall|i: int| 0 <= i < s.len() implies !(gap.from < #[trigger] s[i] < gap.to) by {
        let x = s[i];
        crate::order::lemma_same_elements(t, s, x);
        assert(s.contains(x));
        let j = choose|j: int| 0 <= j < t.len() && t[j] == x;
        if j <= k {
            assert(t[j] <= t[k]);
        } else {
            assert(t[k + 1] <= t[j]);
        }
    }
}

/// Where the `g`-th gap of sorted `t` sits: between positions `k` and `k + 1`.
proof fn lemma_gap_position(t: Seq<u64>, g: int) -> (k: int)
    requires
        sorted(t),
        0 <= g < gaps_in(t).len(),
    ensures
        0 <= k && k + 1 < t.len(),
        gaps_in(t)[g] == (LedgerGap { from: t[k], to: t[k + 1] }),
        t[k + 1] - t[k] > 1,
    decreases t.len(),
{
    let rest = gaps_in(t.drop_last());
    let u = t.drop_last();
    assert(sorted(u)) by {
        assert forall|i: int, j: int| 0 <= i <= j < u.len() implies u[i] <= u[j] by {
            assert(u[i] == t[i] && u[j] == t[j]);
        }
    }
    if g < rest.len() {
        let k = lemma_gap_position(u, g);
        assert(u[k] == t[k] && u[k + 1] == t[k + 1]);
        k
    } else {
        t.len() - 2
    }
}

} // verus!
