//! Circuit breaker decisions.
//!
//! A breaker starts `Closed` and lets every request through. It counts
//! consecutive failures; reaching the failure threshold opens it. While
//! `Open` it refuses requests until the open duration has passed since the
//! last failure, then moves to `HalfOpen` and lets requests through again.
//! In `HalfOpen`, reaching the success threshold closes it and any failure
//! reopens it.
//!
//! Time is read as nanoseconds on a monotonic clock chosen by the caller.
use std::time::Duration;
use vstd::prelude::*;
use crate::devkit::time_units::{duration_from_secs, secs_duration};

verus! {

/// Configuration for a circuit breaker.
#[derive(Debug, Clone)]
pub struct CircuitBreakerConfig {
    /// Number of consecutive failures before the circuit opens.
    pub failure_threshold: u32,
    /// Number of consecutive successes in half-open state before closing.
    pub success_threshold: u32,
    /// How long the circuit stays open before transitioning to half-open.
    pub open_duration: Duration,
}

impl Default for CircuitBreakerConfig {
    fn default() -> (res: Self)
        ensures
            res.failure_threshold == 5,
            res.success_threshold == 2,
            res.open_duration == secs_duration(30),
    {
        Self { failure_threshold: 5, success_threshold: 2, open_duration: duration_from_secs(30) }
    }
}

/// The state of the circuit breaker.
#[derive(Debug, Clone, Copy, PartialEq, Eq, Structural)]
pub enum CircuitState {
    Closed,
    Open,
    HalfOpen,
}

/// The thresholds a breaker decides by, with the open duration in
/// nanoseconds.
#[derive(Debug, Clone, Copy, PartialEq, Eq, Structural)]
pub struct BreakerLimits {
    pub failure_threshold: u32,
    pub success_threshold: u32,
    pub open_duration_nanos: u128,
}

/// What a breaker's decisions depend on: its state, its consecutive
/// failure and success counts, and when it last saw a failure.
pub struct CircuitView {
    pub state: CircuitState,
    pub failure_count: u32,
    pub success_count: u32,
    pub last_failure_at: Option<u128>,
}

/// Time elapsed from `since` to `now`, zero if `now` is earlier.
pub open spec fn elapsed(since: u128, now: u128) -> int {
    if now >= since {
        now - since
    } else {
        0
    }
}

/// Whether an open breaker in `v` may let a request through at `now`.
pub open spec fn open_period_over(v: CircuitView, lim: BreakerLimits, now: u128) -> bool {
    match v.last_failure_at {
        Some(t) => elapsed(t, now) >= lim.open_duration_nanos,
        None => false,
    }
}

/// The breaker after a request is asked for at `now`.
pub open spec fn after_allow(v: CircuitView, lim: BreakerLimits, now: u128) -> CircuitView {
    if v.state == CircuitState::Open && open_period_over(v, lim, now) {
        CircuitView { state: CircuitState::HalfOpen, success_count: 0, ..v }
    } else {
        v
    }
}

/// Whether a request asked for at `now` is let through.
pub open spec fn allows(v: CircuitView, lim: BreakerLimits, now: u128) -> bool {
    match v.state {
        CircuitState::Closed => true,
        CircuitState::HalfOpen => true,
        CircuitState::Open => open_period_over(v, lim, now),
    }
}

/// The breaker after a successful call.
pub open spec fn after_success(v: CircuitView, lim: BreakerLimits) -> CircuitView {
    match v.state {
        CircuitState::Closed => CircuitView { failure_count: 0, ..v },
        CircuitState::HalfOpen => if v.success_count + 1 >= lim.success_threshold {
            CircuitView { state: CircuitState::Closed, failure_count: 0, success_count: 0, ..v }
        } else {
            CircuitView { success_count: (v.success_count + 1) as u32, ..v }
        },
        CircuitState::Open => v,
    }
}

/// The breaker after a failed call at `now`.
pub open spec fn after_failure(v: CircuitView, lim: BreakerLimits, now: u128) -> CircuitView {
    let v = CircuitView { last_failure_at: Some(now), ..v };
    match v.state {
        CircuitState::Closed => if v.failure_count + 1 >= lim.failure_threshold {
            CircuitView {
                state: CircuitState::Open,
                failure_count: (v.failure_count + 1) as u32,
                ..v
            }
        } else {
            CircuitView { failure_count: (v.failure_count + 1) as u32, ..v }
        },
        CircuitState::HalfOpen => CircuitView {
            state: CircuitState::Open,
            success_count: 0,
            ..v
        },
        CircuitState::Open => v,
    }
}

/// The counts stay below the thresholds that would change the state.
pub open spec fn counts_in_range(v: CircuitView, lim: BreakerLimits) -> bool {
    &&& (v.state == CircuitState::Closed ==> v.failure_count < lim.failure_threshold
        || v.failure_count == 0)
    &&& (v.state == CircuitState::HalfOpen ==> v.success_count < lim.success_threshold
        || v.success_count == 0)
}

/// The breaker after failed calls at each of `times`, in order.
pub open spec fn after_failures(v: CircuitView, lim: BreakerLimits, times: Seq<u128>) -> CircuitView
    decreases times.len(),
{
    if times.len() == 0 {
        v
    } else {
        after_failure(after_failures(v, lim, times.drop_last()), lim, times.last())
    }
}

/// The breaker after `n` successful calls in a row.
pub open spec fn after_successes(v: CircuitView, lim: BreakerLimits, n: nat) -> CircuitView
    decreases n,
{
    if n == 0 {
        v
    } else {
        after_success(after_successes(v, lim, (n - 1) as nat), lim)
    }
}

/// Every transition keeps the counts below the thresholds that change
/// the state.
pub proof fn lemma_transitions_keep_counts_in_range(v: CircuitView, lim: BreakerLimits, now: u128)
    requires
        counts_in_range(v, lim),
    ensures
        counts_in_range(after_allow(v, lim, now), lim),
        counts_in_range(after_success(v, lim), lim),
        counts_in_range(after_failure(v, lim, now), lim),
{
}

/// A closed breaker stays closed, counting, while its consecutive failures
/// stay below the failure threshold, and is open once they reach it.
pub proof fn lemma_consecutive_failures_open(v: CircuitView, lim: BreakerLimits, times: Seq<u128>)
    requires
        v.state == CircuitState::Closed,
        counts_in_range(v, lim),
    ensures
        v.failure_count + times.len() < lim.failure_threshold ==> after_failures(v, lim, times).state
            == CircuitState::Closed && after_failures(v, lim, times).failure_count
            == v.failure_count + times.len(),
        v.failure_count + times.len() >= lim.failure_threshold && times.len() > 0
            ==> after_failures(v, lim, times).state == CircuitState::Open,
    decreases times.len(),
{
    if times.len() > 0 {
        lemma_consecutive_failures_open(v, lim, times.drop_last());
        let prev = after_failures(v, lim, times.drop_last());
        if times.len() > 1 && v.failure_count + times.len() - 1 >= lim.failure_threshold {
            assert(prev.state == CircuitState::Open);
        }
    }
}

/// A half-open breaker stays half-open, counting, while its consecutive
/// successes stay below the success threshold, and is closed with both
/// counts reset once they reach it.
pub proof fn lemma_consecutive_successes_close(v: CircuitView, lim: BreakerLimits, n: nat)
    requires
        v.state == CircuitState::HalfOpen,
        counts_in_range(v, lim),
    ensures
        v.success_count + n < lim.success_threshold ==> after_successes(v, lim, n).state
            == CircuitState::HalfOpen && after_successes(v, lim, n).success_count
            == v.success_count + n,
        v.success_count + n >= lim.success_threshold && n > 0 ==> {
            &&& after_successes(v, lim, n).state == CircuitState::Closed
            &&& after_successes(v, lim, n).failure_count == 0
            &&& after_successes(v, lim, n).success_count == 0
        },
    decreases n,
{
    if n > 0 {
        lemma_consecutive_successes_close(v, lim, (n - 1) as nat);
    }
}

/// An open breaker refuses every request until the open duration has
/// passed since its last failure; the first request after that is let
/// through and leaves the breaker half-open with no successes counted.
pub proof fn lemma_open_waits_out_duration(v: CircuitView, lim: BreakerLimits, now: u128)
    requires
        v.state == CircuitState::Open,
    ensures
        allows(v, lim, now) <==> (v.last_failure_at matches Some(t) && elapsed(t, now)
            >= lim.open_duration_nanos),
        allows(v, lim, now) ==> after_allow(v, lim, now).state == CircuitState::HalfOpen
            && after_allow(v, lim, now).success_count == 0,
        !allows(v, lim, now) ==> after_allow(v, lim, now) == v,
{
}

/// A failure while half-open reopens the breaker.
pub proof fn lemma_half_open_failure_reopens(v: CircuitView, lim: BreakerLimits, now: u128)
    requires
        v.state == CircuitState::HalfOpen,
    ensures
        after_failure(v, lim, now).state == CircuitState::Open,
        after_failure(v, lim, now).last_failure_at == Some(now),
{
}

/// A closed or half-open breaker lets every request through and is left
/// as it was by the request.
pub proof fn lemma_requests_pass_unless_open(v: CircuitView, lim: BreakerLimits, now: u128)
    requires
        v.state == CircuitState::Closed || v.state == CircuitState::HalfOpen,
    ensures
        allows(v, lim, now),
        after_allow(v, lim, now) == v,
{
}

/// A success while closed clears the consecutive failure count.
pub proof fn lemma_closed_success_clears_failures(v: CircuitView, lim: BreakerLimits)
    requires
        v.state == CircuitState::Closed,
    ensures
        after_success(v, lim).state == CircuitState::Closed,
        after_success(v, lim).failure_count == 0,
{
}

/// The breaker after a history of calls, in order: `Some(now)` is a failed
/// call at `now`, `None` a successful one.
pub open spec fn after_calls(v: CircuitView, lim: BreakerLimits, h: Seq<Option<u128>>) -> CircuitView
    decreases h.len(),
{
    if h.len() == 0 {
        v
    } else {
        let prev = after_calls(v, lim, h.drop_last());
        match h.last() {
            Some(now) => after_failure(prev, lim, now),
            None => after_success(prev, lim),
        }
    }
}

/// The number of failed calls at the end of `h`, back to its last success.
pub open spec fn trailing_failures(h: Seq<Option<u128>>) -> nat
    decreases h.len(),
{
    if h.len() > 0 && h.last() is Some {
        1 + trailing_failures(h.drop_last())
    } else {
        0
    }
}

/// Whether `h` holds `k` failed calls in a row, with no success between.
pub open spec fn has_failure_run(h: Seq<Option<u128>>, k: nat) -> bool {
    exists|i: int| 0 <= i && i + k <= h.len() && #[trigger] failures_from(h, i, k)
}

/// Whether the `k` calls of `h` from index `i` all failed.
pub open spec fn failures_from(h: Seq<Option<u128>>, i: int, k: nat) -> bool {
    forall|l: int| i <= l < i + k ==> h[l] is Some
}

/// A new breaker: closed, with no failure seen.
pub open spec fn fresh_view() -> CircuitView {
    CircuitView {
        state: CircuitState::Closed,
        failure_count: 0,
        success_count: 0,
        last_failure_at: None,
    }
}

spec fn run_reached(h: Seq<Option<u128>>, k: nat) -> bool
    decreases h.len(),
{
    h.len() > 0 && (run_reached(h.drop_last(), k) || trailing_failures(h) >= k)
}

proof fn lemma_calls_track_runs(lim: BreakerLimits, h: Seq<Option<u128>>)
    requires
        lim.failure_threshold >= 1,
    ensures
        run_reached(h, lim.failure_threshold as nat) ==> after_calls(fresh_view(), lim, h).state
            == CircuitState::Open,
        !run_reached(h, lim.failure_threshold as nat) ==> {
            &&& after_calls(fresh_view(), lim, h).state == CircuitState::Closed
            &&& after_calls(fresh_view(), lim, h).failure_count == trailing_failures(h)
            &&& trailing_failures(h) < lim.failure_threshold
        },
    decreases h.len(),
{
    if h.len() > 0 {
        lemma_calls_track_runs(lim, h.drop_last());
    }
}

proof fn lemma_trailing_are_failures(h: Seq<Option<u128>>, l: int)
    requires
        h.len() - trailing_failures(h) <= l < h.len(),
    ensures
        h[l] is Some,
    decreases h.len(),
{
    lemma_trailing_within(h);
    assert(h.last() is Some);
    if l < h.len() - 1 {
        lemma_trailing_are_failures(h.drop_last(), l);
        assert(h.drop_last()[l] == h[l]);
    }
}

proof fn lemma_trailing_within(h: Seq<Option<u128>>)
    ensures
        trailing_failures(h) <= h.len(),
    decreases h.len(),
{
    if h.len() > 0 {
        lemma_trailing_within(h.drop_last());
    }
}

proof fn lemma_failures_are_trailing(h: Seq<Option<u128>>, k: nat)
    requires
        k <= h.len(),
        failures_from(h, h.len() - k, k),
    ensures
        trailing_failures(h) >= k,
    decreases k,
{
    if k > 0 {
        let t = h.drop_last();
        assert(h.last() is Some) by {
            assert(h[h.len() - 1] is Some);
        }
        assert(failures_from(t, t.len() - (k - 1), (k - 1) as nat)) by {
            assert forall|l: int| t.len() - (k - 1) <= l < t.len() - (k - 1) + (k - 1) implies t[l] is Some by {
                assert(h[l] is Some);
            }
        }
        lemma_failures_are_trailing(t, (k - 1) as nat);
    }
}

proof fn lemma_run_reached_iff(h: Seq<Option<u128>>, k: nat)
    requires
        k >= 1,
    ensures
        run_reached(h, k) <==> has_failure_run(h, k),
    decreases h.len(),
{
    if h.len() > 0 {
        let t = h.drop_last();
        lemma_run_reached_iff(t, k);
        if run_reached(h, k) {
            if run_reached(t, k) {
                let i = choose|i: int| 0 <= i && i + k <= t.len() && #[trigger] failures_from(t, i, k);
                assert(failures_from(h, i, k)) by {
                    assert forall|l: int| i <= l < i + k implies h[l] is Some by {
                        assert(t[l] is Some);
                    }
                }
                assert(0 <= i && i + k <= h.len() && failures_from(h, i, k));
            } else {
                lemma_trailing_within(h);
                let i = h.len() - k;
                assert(failures_from(h, i, k)) by {
                    assert forall|l: int| i <= l < i + k implies h[l] is Some by {
                        lemma_trailing_are_failures(h, l);
                    }
                }
                assert(0 <= i && i + k <= h.len() && failures_from(h, i, k));
            }
        }
        if has_failure_run(h, k) {
            let i = choose|i: int| 0 <= i && i + k <= h.len() && #[trigger] failures_from(h, i, k);
            if i + k <= t.len() {
                assert(failures_from(t, i, k)) by {
                    assert forall|l: int| i <= l < i + k implies t[l] is Some by {
                        assert(h[l] is Some);
                    }
                }
                assert(0 <= i && i + k <= t.len() && failures_from(t, i, k));
            } else {
                assert(i == h.len() - k);
                lemma_failures_are_trailing(h, k);
            }
        }
    }
}

/// History law: a new breaker that only sees failed and successful calls
/// (no request asked for) is open exactly when `failure_threshold` calls
/// in a row have failed, and stays open from then on; until then it is
/// closed and counts the failures since its last success.
pub proof fn lemma_open_iff_failure_run(lim: BreakerLimits, h: Seq<Option<u128>>)
    requires
        lim.failure_threshold >= 1,
    ensures
        after_calls(fresh_view(), lim, h).state == CircuitState::Open <==> has_failure_run(
            h,
            lim.failure_threshold as nat,
        ),
        !has_failure_run(h, lim.failure_threshold as nat) ==> {
            &&& after_calls(fresh_view(), lim, h).state == CircuitState::Closed
            &&& after_calls(fresh_view(), lim, h).failure_count == trailing_failures(h)
        },
{
    lemma_calls_track_runs(lim, h);
    lemma_run_reached_iff(h, lim.failure_threshold as nat);
}

/// Once a new breaker that only sees failed and successful calls is open,
/// it stays open whatever calls follow.
pub proof fn lemma_open_stays_open(lim: BreakerLimits, h: Seq<Option<u128>>, more: Seq<Option<u128>>)
    requires
        lim.failure_threshold >= 1,
        after_calls(fresh_view(), lim, h).state == CircuitState::Open,
    ensures
        after_calls(fresh_view(), lim, h + more).state == CircuitState::Open,
{
    let k = lim.failure_threshold as nat;
    lemma_open_iff_failure_run(lim, h);
    lemma_open_iff_failure_run(lim, h + more);
    let i = choose|i: int| 0 <= i && i + k <= h.len() && #[trigger] failures_from(h, i, k);
    assert(failures_from(h + more, i, k)) by {
        assert forall|l: int| i <= l < i + k implies (h + more)[l] is Some by {
            assert((h + more)[l] == h[l]);
        }
    }
    assert(0 <= i && i + k <= (h + more).len() && failures_from(h + more, i, k));
}

/// The state of one circuit breaker.
pub struct CircuitBreakerState {
    current_state: CircuitState,
    failure_count: u32,
    success_count: u32,
    last_failure_time: Option<u128>,
    limits: BreakerLimits,
}

impl View for CircuitBreakerState {
    type V = CircuitView;

    closed spec fn view(&self) -> CircuitView {
        CircuitView {
            state: self.current_state,
            failure_count: self.failure_count,
            success_count: self.success_count,
            last_failure_at: self.last_failure_time,
        }
    }
}

impl CircuitBreakerState {
    #[verifier::type_invariant]
    closed spec fn well_formed(self) -> bool {
        counts_in_range(self@, self.limits)
    }

    /// The thresholds this breaker decides by.
    pub closed spec fn spec_limits(&self) -> BreakerLimits {
        self.limits
    }

    fn set(&mut self, v: CircuitView)
        requires
            counts_in_range(v, old(self).spec_limits()),
        ensures
            final(self)@ == v,
            final(self).spec_limits() == old(self).spec_limits(),
    {
        *self = CircuitBreakerState {
            current_state: v.state,
            failure_count: v.failure_count,
            success_count: v.success_count,
            last_failure_time: v.last_failure_at,
            limits: self.limits,
        };
    }

    /// A closed breaker with no failures or successes recorded.
    pub fn new(limits: BreakerLimits) -> (res: Self)
        ensures
            res@ == (CircuitView {
                state: CircuitState::Closed,
                failure_count: 0,
                success_count: 0,
                last_failure_at: None,
            }),
            res.spec_limits() == limits,
    {
        CircuitBreakerState {
            current_state: CircuitState::Closed,
            failure_count: 0,
            success_count: 0,
            last_failure_time: None,
            limits,
        }
    }

    /// Check whether a request is allowed through at time `now_nanos`.
    pub fn allow_request(&mut self, now_nanos: u128) -> (res: bool)
        ensures
            res == allows(old(self)@, old(self).spec_limits(), now_nanos),
            final(self)@ == after_allow(old(self)@, old(self).spec_limits(), now_nanos),
            final(self).spec_limits() == old(self).spec_limits(),
    {
        proof {
            use_type_invariant(&*self);
        }
        match self.current_state {
            CircuitState::Closed => true,
            CircuitState::Open => {
                match self.last_failure_time {
                    Some(last) => {
                        let elapsed = now_nanos.saturating_sub(last);
                        if elapsed >= self.limits.open_duration_nanos {
                            let v = CircuitView {
                                state: CircuitState::HalfOpen,
                                failure_count: self.failure_count,
                                success_count: 0,
                                last_failure_at: self.last_failure_time,
                            };
                            self.set(v);
                            true
                        } else {
                            false
                        }
                    },
                    None => false,
                }
            },
            CircuitState::HalfOpen => true,
        }
    }

    /// Record a successful call. Resets failure count in closed state;
    /// increments success count in half-open state (may close the circuit).
    pub fn record_success(&mut self)
        ensures
            final(self)@ == after_success(old(self)@, old(self).spec_limits()),
            final(self).spec_limits() == old(self).spec_limits(),
    {
        proof {
            use_type_invariant(&*self);
        }
        match self.current_state {
            CircuitState::Closed => {
                let v = CircuitView {
                    state: CircuitState::Closed,
                    failure_count: 0,
                    success_count: self.success_count,
                    last_failure_at: self.last_failure_time,
                };
                self.set(v);
            },
            CircuitState::HalfOpen => {
                let successes = self.success_count + 1;
                if successes >= self.limits.success_threshold {
                    let v = CircuitView {
                        state: CircuitState::Closed,
                        failure_count: 0,
                        success_count: 0,
                        last_failure_at: self.last_failure_time,
                    };
                    self.set(v);
                } else {
                    let v = CircuitView {
                        state: CircuitState::HalfOpen,
                        failure_count: self.failure_count,
                        success_count: successes,
                        last_failure_at: self.last_failure_time,
                    };
                    self.set(v);
                }
            },
            CircuitState::Open => {},
        }
    }

    /// Record a failed call at time `now_nanos`. Increments failure count
    /// (may open the circuit).
    pub fn record_failure(&mut self, now_nanos: u128)
        ensures
            final(self)@ == after_failure(old(self)@, old(self).spec_limits(), now_nanos),
            final(self).spec_limits() == old(self).spec_limits(),
    {
        proof {
            use_type_invariant(&*self);
        }
        match self.current_state {
            CircuitState::Closed => {
                let failures = self.failure_count + 1;
                let state = if failures >= self.limits.failure_threshold {
                    CircuitState::Open
                } else {
                    CircuitState::Closed
                };
                let v = CircuitView {
                    state,
                    failure_count: failures,
                    success_count: self.success_count,
                    last_failure_at: Some(now_nanos),
                };
                self.set(v);
            },
            CircuitState::HalfOpen => {
                let v = CircuitView {
                    state: CircuitState::Open,
                    failure_count: self.failure_count,
                    success_count: 0,
                    last_failure_at: Some(now_nanos),
                };
                self.set(v);
            },
            CircuitState::Open => {
                let v = CircuitView {
                    state: CircuitState::Open,
                    failure_count: self.failure_count,
                    success_count: self.success_count,
                    last_failure_at: Some(now_nanos),
                };
                self.set(v);
            },
        }
    }

    /// Get the current state.
    pub fn state(&self) -> (res: CircuitState)
        ensures
            res == self@.state,
    {
        self.current_state
    }
}

} // verus!
