//! Synchronous test runner for the sandbox environment.
use std::time::Duration;
use vstd::prelude::*;
use crate::devkit::sandbox::environment::{seeded_records, SandboxEnv};
use crate::devkit::time_units::{duration_from_secs, secs_duration};

verus! {

/// Runs `f` with a freshly-seeded [`SandboxEnv`] and returns its result.
pub fn run<F, T>(f: F) -> (res: T) where F: FnOnce(&SandboxEnv) -> T
    requires
        forall|env: &SandboxEnv| env@ == seeded_records() ==> call_requires(f, (env,)),
    ensures
        exists|env: &SandboxEnv| env@ == seeded_records() && call_ensures(f, (env,), res),
{
    let env = SandboxEnv::new();
    f(&env)
}

/// Collects timing and record-count metadata for a sandbox run.
pub struct ResultCollector {
    duration: Duration,
    records_processed: usize,
}

impl ResultCollector {
    /// The recorded duration.
    pub closed spec fn spec_duration(&self) -> Duration {
        self.duration
    }

    /// The recorded number of processed records.
    pub closed spec fn spec_records_processed(&self) -> usize {
        self.records_processed
    }

    /// A collector with zero duration and nothing processed.
    pub fn new() -> (res: Self)
        ensures
            res.spec_duration() == secs_duration(0),
            res.spec_records_processed() == 0,
    {
        Self { duration: duration_from_secs(0), records_processed: 0 }
    }

    /// Records how long the run took.
    pub fn record_duration(&mut self, d: Duration)
        ensures
            final(self).spec_duration() == d,
            final(self).spec_records_processed() == old(self).spec_records_processed(),
    {
        self.duration = d;
    }

    /// How long the run took.
    pub fn duration(&self) -> (res: Duration)
        ensures
            res == self.spec_duration(),
    {
        self.duration
    }

    /// Records how many records the run processed.
    pub fn set_records_processed(&mut self, n: usize)
        ensures
            final(self).spec_records_processed() == n,
            final(self).spec_duration() == old(self).spec_duration(),
    {
        self.records_processed = n;
    }

    /// How many records the run processed.
    pub fn records_processed(&self) -> (res: usize)
        ensures
            res == self.spec_records_processed(),
    {
        self.records_processed
    }
}

impl Default for ResultCollector {
    fn default() -> (res: Self)
        ensures
            res.spec_duration() == secs_duration(0),
            res.spec_records_processed() == 0,
    {
        Self::new()
    }
}

} // verus!
