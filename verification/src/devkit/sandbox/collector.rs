//! Result collector for sandbox test runs.
//!
//! Accumulates [`FeeRecord`]s produced during a test run.
use std::time::Duration;
use vstd::prelude::*;
use crate::devkit::time_units::{duration_from_secs, secs_duration};

verus! {

/// A single fee record collected during a sandbox run.
#[derive(Debug, Clone, Copy, PartialEq, Eq, Structural)]
pub struct FeeRecord {
    /// Milliseconds since the Unix epoch.
    pub timestamp_ms: u64,
    /// Fee amount in stroops.
    pub fee_stroops: u64,
    /// Ledger sequence number.
    pub sequence: u64,
}

/// Collects [`FeeRecord`]s for a sandbox run.
#[derive(Debug)]
pub struct ResultCollector {
    duration: Duration,
    records: Vec<FeeRecord>,
    record_count: usize,
}

impl View for ResultCollector {
    type V = Seq<FeeRecord>;

    /// The records collected so far, in order.
    closed spec fn view(&self) -> Seq<FeeRecord> {
        self.records@
    }
}

impl ResultCollector {
    #[verifier::type_invariant]
    closed spec fn count_matches(self) -> bool {
        self.record_count == self.records@.len()
    }

    /// The duration attributed to this collection run.
    pub closed spec fn spec_duration(&self) -> Duration {
        self.duration
    }

    /// Create an empty collector with zero duration.
    pub fn new() -> (res: Self)
        ensures
            res@ == Seq::<FeeRecord>::empty(),
            res.spec_duration() == secs_duration(0),
    {
        Self { duration: duration_from_secs(0), records: Vec::new(), record_count: 0 }
    }

    /// Append a fee record to the collector.
    pub fn record(&mut self, fee: FeeRecord)
        ensures
            final(self)@ == old(self)@.push(fee),
            final(self).spec_duration() == old(self).spec_duration(),
    {
        let mut taken = ResultCollector {
            duration: self.duration,
            records: Vec::new(),
            record_count: 0,
        };
        std::mem::swap(&mut taken, self);
        let ResultCollector { duration, mut records, record_count: _ } = taken;
        records.push(fee);
        let count = records.len();
        *self = ResultCollector { duration, records, record_count: count };
    }

    /// Number of records collected so far.
    pub fn record_count(&self) -> (res: usize)
        ensures
            res == self@.len(),
    {
        proof {
            use_type_invariant(self);
        }
        self.record_count
    }

    /// Read-only access to all collected records.
    pub fn records(&self) -> (res: &[FeeRecord])
        ensures
            res@ == self@,
    {
        self.records.as_slice()
    }

    /// The duration attributed to this collection run.
    pub fn duration(&self) -> (res: Duration)
        ensures
            res == self.spec_duration(),
    {
        self.duration
    }
}

impl Default for ResultCollector {
    fn default() -> (res: Self)
        ensures
            res@ == Seq::<FeeRecord>::empty(),
            res.spec_duration() == secs_duration(0),
    {
        Self::new()
    }
}

} // verus!
