//! Fixture generators for the sandbox.
//!
//! Each function returns a [`Vec`] of `(timestamp_ms, fee_stroops)` tuples
//! representing a particular network condition. All fixtures are fully
//! deterministic — no RNG seed is required.
use vstd::prelude::*;

verus! {

/// The instant every fixture starts at, in milliseconds since the epoch.
pub const ANCHOR_MS: u64 = 1_753_315_200_000;

/// Number of records in each fixture.
pub const FIXTURE_COUNT: u64 = 10_000;

/// Spacing of fixture records: one day spread over the fixture count.
pub const FIXTURE_INTERVAL_MS: u64 = 8_640;

/// The timestamp of the `i`-th fixture record.
pub open spec fn fixture_timestamp(i: int) -> int {
    ANCHOR_MS + i * FIXTURE_INTERVAL_MS
}

/// The fee of the `i`-th record of the congested fixture.
pub open spec fn congested_fee(i: int) -> int {
    10_000 + i * 70_000 / 10_000
}

/// The fee of the `i`-th record of the volatile fixture.
pub open spec fn volatile_fee(i: int) -> int {
    if i % 10 == 0 {
        80_000
    } else {
        10
    }
}

/// Generates 10,000 fee records representing a congested Stellar testnet session.
///
/// Fees are clustered in the **10,000–80,000 stroop** range with linearly
/// increasing variation. Timestamps are spaced ~8.64 seconds apart spanning
/// exactly 24 hours.
pub fn congested_network() -> (res: Vec<(u64, u64)>)
    ensures
        res@.len() == 10_000,
        forall|i: int|
            0 <= i < 10_000 ==> #[trigger] res@[i] == (fixture_timestamp(i) as u64, congested_fee(i) as u64),
{
    let mut res: Vec<(u64, u64)> = Vec::new();
    for i in 0..10_000u64
        invariant
            res@.len() == i,
            forall|j: int|
                0 <= j < i ==> #[trigger] res@[j] == (fixture_timestamp(j) as u64, congested_fee(j) as u64),
    {
        let timestamp_ms = ANCHOR_MS + i * FIXTURE_INTERVAL_MS;
        let fee = 10_000 + (i * 70_000 / 10_000);
        res.push((timestamp_ms, fee));
    }
    res
}

/// Generates 10,000 fee records representing a volatile Stellar network.
///
/// Most fees are very low (~10 stroops), but ~10% spike to ~80,000, producing
/// a high coefficient of variation. Timestamps are spaced ~8.64 seconds apart
/// spanning 24 hours.
pub fn volatile_network() -> (res: Vec<(u64, u64)>)
    ensures
        res@.len() == 10_000,
        forall|i: int|
            0 <= i < 10_000 ==> #[trigger] res@[i] == (fixture_timestamp(i) as u64, volatile_fee(i) as u64),
{
    let mut res: Vec<(u64, u64)> = Vec::new();
    for i in 0..10_000u64
        invariant
            res@.len() == i,
            forall|j: int|
                0 <= j < i ==> #[trigger] res@[j] == (fixture_timestamp(j) as u64, volatile_fee(j) as u64),
    {
        let timestamp_ms = ANCHOR_MS + i * FIXTURE_INTERVAL_MS;
        let fee = if i % 10 == 0 { 80_000 } else { 10 };
        res.push((timestamp_ms, fee));
    }
    res
}

/// The congested fixture's fees lie in `[10_000, 80_000]` and its
/// timestamps strictly increase.
pub proof fn lemma_congested_shape(i: int, j: int)
    requires
        0 <= i < j < 10_000,
    ensures
        10_000 <= congested_fee(i) <= 80_000,
        fixture_timestamp(i) < fixture_timestamp(j),
{
    assert(0 <= i * 70_000 / 10_000 <= 70_000) by (nonlinear_arith)
        requires 0 <= i < 10_000;
    assert(i * FIXTURE_INTERVAL_MS < j * FIXTURE_INTERVAL_MS) by (nonlinear_arith)
        requires i < j;
}

} // verus!
