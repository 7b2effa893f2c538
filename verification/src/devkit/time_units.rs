//! Durations built from whole seconds.
use std::time::Duration;
use vstd::prelude::*;

verus! {

/// The `Duration` that `Duration::from_secs(secs)` returns.
pub uninterp spec fn secs_duration(secs: u64) -> Duration;

/// A duration of `secs` whole seconds (std `Duration::from_secs`).
#[verifier::external_body]
pub(crate) fn duration_from_secs(secs: u64) -> (d: Duration)
    ensures
        d == secs_duration(secs),
{
    Duration::from_secs(secs)
}

/// `Duration` is `Copy`; its `clone` returns the same value.
pub assume_specification[ <Duration as Clone>::clone ](d: &Duration) -> (res: Duration)
    ensures
        res == *d,
;

} // verus!
