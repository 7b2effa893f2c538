//! Horizon protocol helpers: fee statistics shapes, ledger sequence checks
//! and protocol version detection.
pub mod fee_stats;
pub mod horizon;
pub mod ledger;
pub mod version;

use vstd::prelude::*;

verus! {

/// An error the devkit reports.
#[derive(Debug)]
pub enum DevkitError {
    /// A protocol-level failure, with its description.
    Protocol(String),
}

} // verus!
