//! Congestion vocabulary and the integer basis of a wait advisory.
//!
//! The advisory compares the current fee against a historical window:
//! how many historical fees lie below it, the historical median, how many
//! samples there are and how long a window they actually cover. The
//! weighted congestion score built on top of these is floating point and
//! is not part of this module.
use vstd::prelude::*;
use crate::order::{sort_u64, sorted_of};
use crate::tracker::percentile::{nearest_rank_index, percentile_nearest};
use crate::tracker::store::{FeeDataPoint, Timestamp};

verus! {

/// The congestion level reported on every external surface.
#[derive(Debug, Clone, Copy, PartialEq, Eq, Hash, Structural)]
pub enum CongestionLevel {
    Low,
    Moderate,
    High,
    Critical,
}

/// The lower-case name of a congestion level.
pub open spec fn level_name(level: CongestionLevel) -> Seq<char> {
    match level {
        CongestionLevel::Low => "low"@,
        CongestionLevel::Moderate => "moderate"@,
        CongestionLevel::High => "high"@,
        CongestionLevel::Critical => "critical"@,
    }
}

impl CongestionLevel {
    /// The lower-case name of the level.
    pub fn as_str(&self) -> (res: &'static str)
        ensures
            res@ == level_name(*self),
    {
        match self {
            CongestionLevel::Low => "low",
            CongestionLevel::Moderate => "moderate",
            CongestionLevel::High => "high",
            CongestionLevel::Critical => "critical",
        }
    }
}

/// Recent fee trend, as an input of congestion scoring.
#[derive(Debug, Clone, Copy, PartialEq, Eq, Structural)]
pub enum TrendDirection {
    Rising,
    Stable,
    Falling,
}

/// Whether submitting a transaction now is advisable.
#[derive(Debug, Clone, Copy, PartialEq, Eq, Structural)]
pub enum WaitRecommendation {
    /// Fees are low or moderate: submit now.
    SubmitNow,
    /// Fees are high: consider waiting for a better window.
    ConsiderWaiting,
    /// Fees are critically high: waiting is strongly advised.
    Wait,
}

/// The verdict for a congestion level; at a moderate level it depends on
/// whether the current fee sits above the 70th percentile of history.
pub open spec fn verdict(level: CongestionLevel, above_seventieth: bool) -> WaitRecommendation {
    match level {
        CongestionLevel::Low => WaitRecommendation::SubmitNow,
        CongestionLevel::Moderate => if above_seventieth {
            WaitRecommendation::ConsiderWaiting
        } else {
            WaitRecommendation::SubmitNow
        },
        CongestionLevel::High => WaitRecommendation::ConsiderWaiting,
        CongestionLevel::Critical => WaitRecommendation::Wait,
    }
}

/// The verdict for a congestion level and the current fee's position.
pub fn wait_verdict(level: CongestionLevel, above_seventieth: bool) -> (res: WaitRecommendation)
    ensures
        res == verdict(level, above_seventieth),
{
    match level {
        CongestionLevel::Low => WaitRecommendation::SubmitNow,
        CongestionLevel::Moderate => {
            if above_seventieth {
                WaitRecommendation::ConsiderWaiting
            } else {
                WaitRecommendation::SubmitNow
            }
        },
        CongestionLevel::High => WaitRecommendation::ConsiderWaiting,
        CongestionLevel::Critical => WaitRecommendation::Wait,
    }
}

/// The fee amounts of a list of points.
pub open spec fn fee_amounts(points: Seq<FeeDataPoint>) -> Seq<u64> {
    points.map_values(|p: FeeDataPoint| p.fee_amount)
}

/// How many of `fees` lie strictly below `fee`.
pub open spec fn count_below(fees: Seq<u64>, fee: u64) -> nat
    decreases fees.len(),
{
    if fees.len() == 0 {
        0
    } else {
        count_below(fees.drop_last(), fee) + if fees.last() < fee {
            1nat
        } else {
            0nat
        }
    }
}

/// Whole seconds from `oldest` to `newest`, rounded toward zero, and
/// never negative.
pub open spec fn window_span(oldest: Timestamp, newest: Timestamp) -> int {
    let d = newest.secs - oldest.secs - if newest.nanos < oldest.nanos {
        1int
    } else {
        0int
    };
    if d > 0 {
        d
    } else {
        0
    }
}

/// The current fee: the latest recent point's, else the latest historical
/// point's.
pub open spec fn current_fee_of(recent: Seq<FeeDataPoint>, historical: Seq<FeeDataPoint>) -> u64 {
    if recent.len() > 0 {
        recent.last().fee_amount
    } else if historical.len() > 0 {
        historical.last().fee_amount
    } else {
        100
    }
}

/// The integer facts a wait advisory is built on.
#[derive(Debug, Clone, Copy, PartialEq, Eq, Structural)]
pub struct AdvisoryBasis {
    /// The fee being judged.
    pub current_fee: u64,
    /// How many historical fees lie strictly below the current fee.
    pub count_below: usize,
    /// Number of historical samples.
    pub sample_count: usize,
    /// Nearest-rank median of the historical fees.
    pub historical_median: u64,
    /// The comparison window actually covered, in seconds.
    pub actual_window_secs: u64,
}

/// The advisory basis for the given points, or `None` without history.
pub open spec fn basis_of(
    recent: Seq<FeeDataPoint>,
    historical: Seq<FeeDataPoint>,
    requested_window_secs: u64,
) -> Option<AdvisoryBasis> {
    if historical.len() == 0 {
        None
    } else {
        let fees = fee_amounts(historical);
        let current = current_fee_of(recent, historical);
        Some(
            AdvisoryBasis {
                current_fee: current,
                count_below: count_below(fees, current) as usize,
                sample_count: historical.len() as usize,
                historical_median: sorted_of(fees)[nearest_rank_index(fees.len() as int, 50)],
                actual_window_secs: if historical.len() >= 10 {
                    requested_window_secs
                } else {
                    window_span(historical[0].timestamp, historical.last().timestamp) as u64
                },
            },
        )
    }
}

proof fn lemma_count_below_bound(fees: Seq<u64>, fee: u64)
    ensures
        count_below(fees, fee) <= fees.len(),
    decreases fees.len(),
{
    if fees.len() > 0 {
        lemma_count_below_bound(fees.drop_last(), fee);
    }
}

/// Whole seconds from `oldest` to `newest`, rounded toward zero, and
/// never negative.
pub fn window_secs_between(oldest: &Timestamp, newest: &Timestamp) -> (res: u64)
    ensures
        res == window_span(*oldest, *newest),
{
    let borrow: i128 = if newest.nanos < oldest.nanos { 1 } else { 0 };
    let d: i128 = newest.secs as i128 - oldest.secs as i128 - borrow;
    if d > 0 {
        d as u64
    } else {
        0
    }
}

/// The integer basis of a wait advisory: `None` when there is no history.
/// Otherwise the current fee (latest recent point, else latest historical
/// point), how many historical fees lie below it, the sample count, the
/// nearest-rank median of the historical fees and the window covered (the
/// requested one with at least ten samples, else the span from the first
/// to the last historical point).
pub fn advisory_basis(
    recent: &Vec<FeeDataPoint>,
    historical: &Vec<FeeDataPoint>,
    requested_window_secs: u64,
) -> (res: Option<AdvisoryBasis>)
    ensures
        res == basis_of(recent@, historical@, requested_window_secs),
        res matches Some(b) ==> b.count_below <= b.sample_count,
        res matches Some(b) ==> recent@.len() > 0 ==> b.current_fee == recent@.last().fee_amount,
{
    if historical.len() == 0 {
        return None;
    }
    let n = historical.len();
    let current: u64 = if recent.len() > 0 {
        recent[recent.len() - 1].fee_amount
    } else {
        historical[n - 1].fee_amount
    };
    let mut fees: Vec<u64> = Vec::new();
    let mut below: usize = 0;
    for i in 0..n
        invariant
            n == historical@.len(),
            fees@ == fee_amounts(historical@.take(i as int)),
            below == count_below(fees@, current),
            fees@.len() == i,
    {
        let f = historical[i].fee_amount;
        let ghost pre = fees@;
        fees.push(f);
        proof {
            assert(fees@.drop_last() =~= pre);
            lemma_count_below_bound(pre, current);
            assert(fee_amounts(historical@.take(i + 1)) =~= fee_amounts(historical@.take(i as int)).push(f));
        }
        if f < current {
            below = below + 1;
        }
    }
    assert(historical@.take(n as int) =~= historical@);
    proof {
        lemma_count_below_bound(fees@, current);
    }
    let sorted = sort_u64(fees.as_slice());
    let median = percentile_nearest(sorted.as_slice(), 50);
    let window: u64 = if n >= 10 {
        requested_window_secs
    } else {
        window_secs_between(&historical[0].timestamp, &historical[n - 1].timestamp)
    };
    Some(
        AdvisoryBasis {
            current_fee: current,
            count_below: below,
            sample_count: n,
            historical_median: median,
            actual_window_secs: window,
        },
    )
}

proof fn lemma_count_below_is_filter(h: Seq<FeeDataPoint>, fee: u64)
    ensures
        count_below(fee_amounts(h), fee) == h.filter(|p: FeeDataPoint| p.fee_amount < fee).len(),
    decreases h.len(),
{
    reveal(Seq::filter);
    if h.len() > 0 {
        lemma_count_below_is_filter(h.drop_last(), fee);
        assert(fee_amounts(h).drop_last() =~= fee_amounts(h.drop_last()));
        assert(fee_amounts(h).last() == h.last().fee_amount);
    }
}

/// Advisory law: with history, the current fee is the fee of the most
/// recent recent point (of the last historical point when there is none),
/// the count below is the number of historical points whose fee is
/// strictly lower, the sample count is the number of historical points,
/// and the median is one of the historical fees.
pub proof fn lemma_advisory_basis_facts(
    recent: Seq<FeeDataPoint>,
    historical: Seq<FeeDataPoint>,
    requested_window_secs: u64,
)
    requires
        0 < historical.len() <= usize::MAX,
    ensures
        basis_of(recent, historical, requested_window_secs) matches Some(b) && {
            &&& recent.len() > 0 ==> b.current_fee == recent.last().fee_amount
            &&& recent.len() == 0 ==> b.current_fee == historical.last().fee_amount
            &&& b.count_below == historical.filter(|p: FeeDataPoint| p.fee_amount < b.current_fee).len()
            &&& b.sample_count == historical.len()
            &&& exists|i: int| 0 <= i < historical.len() && #[trigger] historical[i].fee_amount == b.historical_median
            &&& historical.len() >= 10 ==> b.actual_window_secs == requested_window_secs
        },
{
    let fees = fee_amounts(historical);
    let current = current_fee_of(recent, historical);
    lemma_count_below_is_filter(historical, current);
    lemma_count_below_bound(fees, current);
    crate::order::lemma_sorted_of_exists(fees);
    crate::order::lemma_sorted_of_len(fees);
    let t = sorted_of(fees);
    let idx = nearest_rank_index(fees.len() as int, 50);
    assert(0 <= idx < fees.len());
    assert(t.contains(t[idx]));
    crate::order::lemma_same_elements(t, fees, t[idx]);
    let i = choose|i: int| 0 <= i < fees.len() && fees[i] == t[idx];
    assert(historical[i].fee_amount == fees[i]);
}

} // verus!
