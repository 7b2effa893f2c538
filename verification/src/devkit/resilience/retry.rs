//! Decisions of the generic retry executor: an operation is called up to
//! `max_attempts` times; a success is returned at once, and a failure is
//! followed by a wait and another call while attempts remain.
use vstd::prelude::*;

verus! {

/// What the executor does after an attempt.
#[derive(Debug, Clone, Copy, PartialEq, Eq, Structural)]
pub enum RetryStep {
    /// Return the successful value.
    Return,
    /// Wait the backoff delay, then call again.
    WaitThenRetry,
    /// Return the last error: no attempt is left.
    Exhausted,
}

/// The decision after attempt `attempt` (0-indexed) of `max_attempts`.
pub open spec fn retry_decision(attempt: int, max_attempts: int, succeeded: bool) -> RetryStep {
    if succeeded {
        RetryStep::Return
    } else if attempt + 1 < max_attempts {
        RetryStep::WaitThenRetry
    } else {
        RetryStep::Exhausted
    }
}

/// The decision after attempt `attempt` (0-indexed) of `max_attempts`: a
/// success is returned; a failure waits and retries while attempts remain,
/// and is returned as the final error on the last attempt.
pub fn retry_step(attempt: u32, max_attempts: u32, succeeded: bool) -> (res: RetryStep)
    requires
        attempt < max_attempts,
    ensures
        res == retry_decision(attempt as int, max_attempts as int, succeeded),
{
    if succeeded {
        RetryStep::Return
    } else if attempt + 1 < max_attempts {
        RetryStep::WaitThenRetry
    } else {
        RetryStep::Exhausted
    }
}

/// How many calls the executor makes from attempt `k` on, when attempt `i`
/// succeeds exactly if `results[i]` holds.
pub open spec fn calls_from(results: Seq<bool>, k: int, max_attempts: int) -> int
    decreases max_attempts - k,
{
    if k < 0 || k >= max_attempts {
        0
    } else if retry_decision(k, max_attempts, results[k]) == RetryStep::WaitThenRetry {
        1 + calls_from(results, k + 1, max_attempts)
    } else {
        1
    }
}

/// When every call fails, the executor makes exactly `max_attempts` calls;
/// when call `k` is the first to succeed, it makes `k + 1`.
pub proof fn lemma_retry_calls(results: Seq<bool>, max_attempts: int, k: int)
    requires
        0 <= k < max_attempts <= results.len(),
        forall|i: int| 0 <= i < k ==> !results[i],
    ensures
        results[k] ==> calls_from(results, 0, max_attempts) == k + 1,
        (forall|i: int| k <= i < max_attempts ==> !results[i]) ==> calls_from(results, 0, max_attempts)
            == max_attempts,
{
    lemma_calls_prefix(results, max_attempts, k, 0);
    if forall|i: int| k <= i < max_attempts ==> !results[i] {
        lemma_calls_all_fail(results, max_attempts, k);
    }
}

proof fn lemma_calls_prefix(results: Seq<bool>, max_attempts: int, k: int, j: int)
    requires
        0 <= j <= k < max_attempts <= results.len(),
        forall|i: int| 0 <= i < k ==> !results[i],
    ensures
        calls_from(results, j, max_attempts) == k - j + calls_from(results, k, max_attempts),
    decreases k - j,
{
    if j < k {
        lemma_calls_prefix(results, max_attempts, k, j + 1);
    }
}

proof fn lemma_calls_all_fail(results: Seq<bool>, max_attempts: int, j: int)
    requires
        0 <= j < max_attempts <= results.len(),
        forall|i: int| j <= i < max_attempts ==> !results[i],
    ensures
        calls_from(results, j, max_attempts) == max_attempts - j,
    decreases max_attempts - j,
{
    if j + 1 < max_attempts {
        lemma_calls_all_fail(results, max_attempts, j + 1);
    }
}

} // verus!
