//! Retry decisions of the fee polling loops.
//!
//! A fetch is attempted up to `max_attempts` times. A successful fetch is
//! delivered; malformed data is not retried, since it will not fix
//! itself; any other failure waits an exponential delay with random
//! jitter, capped at thirty seconds, before the next attempt.
use vstd::prelude::*;
use vstd::arithmetic::power2::pow2;
use crate::devkit::resilience::backoff::{doubling, min_of, saturate, saturating_mul};
use crate::tracker::store::AppError;

verus! {

/// Longest wait between two fetch attempts, in milliseconds.
pub const MAX_RETRY_DELAY_MS: u64 = 30_000;

/// The wait after failed attempt `attempt` (0-indexed) when the random
/// draw is `r`: `base * 2^attempt` (saturating) plus `r` modulo the base
/// (at least one), saturating, capped at thirty seconds.
pub open spec fn retry_delay_ms(base_delay_ms: u64, attempt: u32, r: u64) -> int {
    let exponential = saturate(base_delay_ms * pow2(attempt as nat));
    let divisor = if base_delay_ms >= 1 {
        base_delay_ms as int
    } else {
        1int
    };
    min_of(saturate(exponential + (r as int) % divisor), MAX_RETRY_DELAY_MS as int)
}

/// A random `u64` from rand's thread-local generator; any value may come
/// back, so nothing is stated of it.
#[verifier::external_body]
fn random_u64() -> u64 {
    rand::random::<u64>()
}

/// The wait after failed attempt `attempt` for the random draw `r`.
pub fn retry_delay_for(base_delay_ms: u64, attempt: u32, r: u64) -> (res: u64)
    requires
        attempt < 64,
    ensures
        res == retry_delay_ms(base_delay_ms, attempt, r),
        min_of(saturate(base_delay_ms * pow2(attempt as nat)), MAX_RETRY_DELAY_MS as int) <= res
            <= MAX_RETRY_DELAY_MS,
{
    let exponential = saturating_mul(base_delay_ms, doubling(attempt));
    let divisor: u64 = if base_delay_ms >= 1 { base_delay_ms } else { 1 };
    let jitter = r % divisor;
    let total = exponential.saturating_add(jitter);
    if total < MAX_RETRY_DELAY_MS {
        total
    } else {
        MAX_RETRY_DELAY_MS
    }
}

/// The wait after failed attempt `attempt`, with a fresh random jitter.
pub fn retry_delay(base_delay_ms: u64, attempt: u32) -> (res: u64)
    requires
        attempt < 64,
    ensures
        exists|r: u64| res == #[trigger] retry_delay_ms(base_delay_ms, attempt, r),
        min_of(saturate(base_delay_ms * pow2(attempt as nat)), MAX_RETRY_DELAY_MS as int) <= res
            <= MAX_RETRY_DELAY_MS,
{
    let r = random_u64();
    retry_delay_for(base_delay_ms, attempt, r)
}

/// What one fetch attempt produced.
#[derive(Debug, Clone, Copy, PartialEq, Eq, Structural)]
pub enum FetchOutcome {
    /// Data arrived and could be read.
    Fetched,
    /// Data arrived but was malformed.
    Malformed,
    /// The fetch failed for any other reason.
    Failed,
}

/// What the polling loop does after an attempt.
#[derive(Debug, Clone, Copy, PartialEq, Eq, Structural)]
pub enum FetchStep {
    /// Hand the data on.
    Deliver,
    /// Stop without data.
    GiveUp,
    /// Wait `delay_ms`, then try again when `retry` holds, else stop
    /// without data.
    Backoff { delay_ms: u64, retry: bool },
}

/// Whether another attempt follows attempt `attempt` (0-indexed).
pub open spec fn fetch_continues(attempt: int, max_attempts: int, outcome: FetchOutcome) -> bool {
    outcome == FetchOutcome::Failed && attempt + 1 < max_attempts
}

/// Why a fee data provider could not deliver data.
#[derive(Debug, Clone)]
pub enum ProviderError {
    /// The data arrived but could not be read.
    FormatError { message: String },
    /// The request failed.
    NetworkError { message: String },
    /// The provider is not available.
    ServiceUnavailable,
}

/// The outcome a provider error stands for: format errors are malformed
/// data, every other error a failed fetch.
pub open spec fn outcome_of_provider_error(err: ProviderError) -> FetchOutcome {
    match err {
        ProviderError::FormatError { .. } => FetchOutcome::Malformed,
        _ => FetchOutcome::Failed,
    }
}

/// The outcome a provider error stands for.
pub fn provider_outcome(err: &ProviderError) -> (res: FetchOutcome)
    ensures
        res == outcome_of_provider_error(*err),
{
    match err {
        ProviderError::FormatError { .. } => FetchOutcome::Malformed,
        _ => FetchOutcome::Failed,
    }
}

/// The outcome an error of the fee tracker stands for: parse errors are
/// malformed data, every other error a failed fetch.
pub open spec fn outcome_of_error(err: AppError) -> FetchOutcome {
    match err {
        AppError::Parse(_) => FetchOutcome::Malformed,
        _ => FetchOutcome::Failed,
    }
}

/// The outcome an error of the fee tracker stands for.
pub fn fetch_outcome_of(err: &AppError) -> (res: FetchOutcome)
    ensures
        res == outcome_of_error(*err),
{
    match err {
        AppError::Parse(_) => FetchOutcome::Malformed,
        _ => FetchOutcome::Failed,
    }
}

/// The decision after attempt `attempt` (0-indexed) of at most
/// `max_attempts`: deliver fetched data, give up on malformed data, and
/// otherwise back off, retrying while attempts remain.
pub fn fetch_step(attempt: u32, max_attempts: u32, outcome: FetchOutcome, base_delay_ms: u64) -> (res:
    FetchStep)
    requires
        attempt < max_attempts,
        outcome == FetchOutcome::Failed ==> attempt < 64,
    ensures
        outcome == FetchOutcome::Fetched ==> res == FetchStep::Deliver,
        outcome == FetchOutcome::Malformed ==> res == FetchStep::GiveUp,
        outcome == FetchOutcome::Failed ==> (res matches FetchStep::Backoff { delay_ms, retry } && (
        exists|r: u64| delay_ms == #[trigger] retry_delay_ms(base_delay_ms, attempt, r))
            && delay_ms <= MAX_RETRY_DELAY_MS),
        (res matches FetchStep::Backoff { retry, .. } && retry) == fetch_continues(
            attempt as int,
            max_attempts as int,
            outcome,
        ),
{
    match outcome {
        FetchOutcome::Fetched => FetchStep::Deliver,
        FetchOutcome::Malformed => FetchStep::GiveUp,
        FetchOutcome::Failed => {
            let delay_ms = retry_delay(base_delay_ms, attempt);
            FetchStep::Backoff { delay_ms, retry: attempt + 1 < max_attempts }
        },
    }
}

/// How many fetches a polling run makes from attempt `k` on, when attempt
/// `i` has outcome `outcomes[i]`.
pub open spec fn fetches_from(outcomes: Seq<FetchOutcome>, k: int, max_attempts: int) -> int
    decreases max_attempts - k,
{
    if k >= max_attempts || k < 0 {
        0
    } else if fetch_continues(k, max_attempts, outcomes[k]) {
        1 + fetches_from(outcomes, k + 1, max_attempts)
    } else {
        1
    }
}

/// When every fetch fails, a run makes exactly `max_attempts` fetches.
pub proof fn lemma_failures_use_every_attempt(outcomes: Seq<FetchOutcome>, max_attempts: int)
    requires
        0 <= max_attempts <= outcomes.len(),
        forall|i: int| 0 <= i < outcomes.len() ==> outcomes[i] == FetchOutcome::Failed,
    ensures
        fetches_from(outcomes, 0, max_attempts) == max_attempts,
{
    lemma_failures_from(outcomes, 0, max_attempts);
}

proof fn lemma_failures_from(outcomes: Seq<FetchOutcome>, k: int, max_attempts: int)
    requires
        0 <= k <= max_attempts <= outcomes.len(),
        forall|i: int| 0 <= i < outcomes.len() ==> outcomes[i] == FetchOutcome::Failed,
    ensures
        fetches_from(outcomes, k, max_attempts) == max_attempts - k,
    decreases max_attempts - k,
{
    if k < max_attempts {
        lemma_failures_from(outcomes, k + 1, max_attempts);
    }
}

/// Malformed data is never retried: a run whose first fetch is malformed
/// makes one fetch.
pub proof fn lemma_malformed_not_retried(outcomes: Seq<FetchOutcome>, max_attempts: int)
    requires
        1 <= max_attempts,
        outcomes.len() >= 1,
        outcomes[0] == FetchOutcome::Malformed,
    ensures
        fetches_from(outcomes, 0, max_attempts) == 1,
{
}

/// A run stops at its first successful fetch.
pub proof fn lemma_stops_at_first_success(outcomes: Seq<FetchOutcome>, k: int, max_attempts: int)
    requires
        0 <= k < max_attempts,
        k < outcomes.len(),
        outcomes[k] == FetchOutcome::Fetched,
        forall|i: int| 0 <= i < k ==> outcomes[i] == FetchOutcome::Failed,
    ensures
        fetches_from(outcomes, 0, max_attempts) == k + 1,
{
    lemma_success_from(outcomes, 0, k, max_attempts);
}

proof fn lemma_success_from(outcomes: Seq<FetchOutcome>, j: int, k: int, max_attempts: int)
    requires
        0 <= j <= k < max_attempts,
        k < outcomes.len(),
        outcomes[k] == FetchOutcome::Fetched,
        forall|i: int| 0 <= i < k ==> outcomes[i] == FetchOutcome::Failed,
    ensures
        fetches_from(outcomes, j, max_attempts) == k + 1 - j,
    decreases k - j,
{
    if j < k {
        lemma_success_from(outcomes, j + 1, k, max_attempts);
    }
}

} // verus!
