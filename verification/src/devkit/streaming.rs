//! Streaming pipeline events.
use vstd::prelude::*;

verus! {

/// An event of the fee streaming pipeline.
#[derive(Debug, Clone)]
pub enum FeeEvent {
    /// A new fee record was recorded for a ledger.
    NewFeeRecord {
        fee_amount: u64,
        ledger_sequence: u64,
        timestamp_ms: i64,
        transaction_hash: Option<String>,
        is_spike: bool,
    },
    /// A fee spike was detected.
    SpikeDetected { severity: String, duration_ledgers: usize },
    /// A ledger was closed at the given sequence number.
    LedgerClosed(u64),
    /// The network condition description changed.
    NetworkConditionChanged(String),
    /// A pipeline processing error occurred.
    PipelineError(String),
}

} // verus!
