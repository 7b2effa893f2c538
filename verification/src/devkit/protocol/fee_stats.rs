//! Fee level distributions as Horizon's `/fee_stats` reports them.
use vstd::prelude::*;

verus! {

/// One fee distribution of a `/fee_stats` response.
#[derive(Debug, Clone, PartialEq, Eq)]
pub struct FeeLevel {
    pub min: Option<u64>,
    pub mode: Option<u64>,
    pub max: Option<u64>,
    pub p10: Option<u64>,
    pub p20: Option<u64>,
    pub p30: Option<u64>,
    pub p40: Option<u64>,
    pub p50: Option<u64>,
    pub p60: Option<u64>,
    pub p70: Option<u64>,
    pub p80: Option<u64>,
    pub p90: Option<u64>,
    pub p95: Option<u64>,
    pub p99: Option<u64>,
    pub transaction_count: Option<u64>,
    pub fee_charged: Option<FeeChargedDetail>,
}

/// The charged-fee detail of a fee distribution.
#[derive(Debug, Clone, PartialEq, Eq)]
pub struct FeeChargedDetail {
    pub max: Option<u64>,
    pub min: Option<u64>,
    pub mode: Option<u64>,
    pub p10: Option<u64>,
    pub p20: Option<u64>,
    pub p30: Option<u64>,
    pub p40: Option<u64>,
    pub p50: Option<u64>,
    pub p60: Option<u64>,
    pub p70: Option<u64>,
    pub p80: Option<u64>,
    pub p90: Option<u64>,
    pub p95: Option<u64>,
    pub p99: Option<u64>,
    pub transaction_count: Option<u64>,
    pub transaction_count_terminal: Option<u64>,
}

} // verus!
