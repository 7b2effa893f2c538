//! Delays between retry attempts.
use rand::Rng;
use vstd::prelude::*;
use vstd::arithmetic::power2::pow2;

verus! {

/// How the delay before a retry grows with the attempt number, before any
/// random jitter is added.
#[derive(Debug, Clone, Copy, PartialEq, Eq, Structural)]
pub enum DelayStrategy {
    /// `base_ms * 2^attempt`, capped at `max_ms`.
    Exponential { base_ms: u64, max_ms: u64 },
    /// `base_ms * attempt`, capped at `max_ms`.
    Linear { base_ms: u64, max_ms: u64 },
    /// Fixed delay regardless of attempt count.
    Fixed { delay_ms: u64 },
}

/// `x`, or `u64::MAX` when `x` exceeds it.
pub open spec fn saturate(x: int) -> int {
    if x > u64::MAX {
        u64::MAX as int
    } else {
        x
    }
}

/// The smaller of `a` and `b`.
pub open spec fn min_of(a: int, b: int) -> int {
    if a <= b {
        a
    } else {
        b
    }
}

/// The multiplier of an exponential delay: `2^attempt`, or `u64::MAX` from
/// attempt 64 on.
pub open spec fn doubling_factor(attempt: u32) -> int {
    if attempt < 64 {
        pow2(attempt as nat) as int
    } else {
        u64::MAX as int
    }
}

/// The delay before jitter for a 0-indexed `attempt`.
pub open spec fn capped_delay_ms(strategy: DelayStrategy, attempt: u32) -> int {
    match strategy {
        DelayStrategy::Exponential { base_ms, max_ms } => min_of(
            saturate(base_ms * doubling_factor(attempt)),
            max_ms as int,
        ),
        DelayStrategy::Linear { base_ms, max_ms } => min_of(
            saturate(base_ms * attempt),
            max_ms as int,
        ),
        DelayStrategy::Fixed { delay_ms } => delay_ms as int,
    }
}

/// `a * b`, or `u64::MAX` when the product does not fit.
pub fn saturating_mul(a: u64, b: u64) -> (res: u64)
    ensures
        res == saturate(a * b),
{
    match a.checked_mul(b) {
        Some(v) => v,
        None => u64::MAX,
    }
}

/// `2^attempt` for attempts below 64, `u64::MAX` from there on.
pub fn doubling(attempt: u32) -> (res: u64)
    ensures
        res == doubling_factor(attempt),
{
    if attempt < 64 {
        let shift: u64 = attempt as u64;
        proof {
            vstd::bits::lemma_u64_pow2_no_overflow(shift as nat);
            vstd::bits::lemma_u64_shl_is_mul(1, shift);
        }
        1u64 << shift
    } else {
        u64::MAX
    }
}

/// Compute the delay in milliseconds for a given attempt (0-indexed),
/// before any jitter.
pub fn capped_delay(strategy: &DelayStrategy, attempt: u32) -> (res: u64)
    ensures
        res == capped_delay_ms(*strategy, attempt),
{
    match strategy {
        DelayStrategy::Exponential { base_ms, max_ms } => {
            let raw = saturating_mul(*base_ms, doubling(attempt));
            if raw < *max_ms { raw } else { *max_ms }
        },
        DelayStrategy::Linear { base_ms, max_ms } => {
            let raw = saturating_mul(*base_ms, attempt as u64);
            if raw < *max_ms { raw } else { *max_ms }
        },
        DelayStrategy::Fixed { delay_ms } => *delay_ms,
    }
}

/// A uniformly random value in `0..=high` (rand's `gen_range` on the
/// thread-local generator); the contract states only the range.
#[verifier::external_body]
fn random_up_to(high: u64) -> (r: u64)
    ensures
        r <= high,
{
    rand::thread_rng().gen_range(0..=high)
}

/// `capped_ms` plus `jitter_ms`, saturating at `u64::MAX`.
pub open spec fn with_jitter(capped_ms: u64, jitter_ms: u64) -> int {
    saturate(capped_ms + jitter_ms)
}

/// `capped_ms` plus the jitter `jitter_ms`, saturating at `u64::MAX`.
pub fn add_jitter(capped_ms: u64, jitter_ms: u64) -> (res: u64)
    ensures
        res == with_jitter(capped_ms, jitter_ms),
{
    capped_ms.saturating_add(jitter_ms)
}

/// `capped_ms` plus a random jitter of at most `jitter_range_ms`,
/// saturating at `u64::MAX`.
pub fn jittered_delay(capped_ms: u64, jitter_range_ms: u64) -> (res: u64)
    ensures
        exists|j: u64| j <= jitter_range_ms && res == #[trigger] with_jitter(capped_ms, j),
{
    let jitter = random_up_to(jitter_range_ms);
    add_jitter(capped_ms, jitter)
}

} // verus!
