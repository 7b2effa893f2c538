//! Settings of the devkit's Horizon client.
use vstd::prelude::*;

verus! {

/// Request timeout a new client starts with, in milliseconds.
pub const DEFAULT_TIMEOUT_MS: u64 = 10_000;

/// Where and how patiently the devkit queries Horizon.
#[derive(Debug, Clone)]
pub struct HorizonClient {
    pub base_url: String,
    pub timeout_ms: u64,
}

impl HorizonClient {
    /// A client for `base_url` with the default ten-second timeout.
    pub fn new(base_url: String) -> (res: Self)
        ensures
            res.base_url@ == base_url@,
            res.timeout_ms == DEFAULT_TIMEOUT_MS,
    {
        HorizonClient { base_url, timeout_ms: DEFAULT_TIMEOUT_MS }
    }

    /// The same client with a timeout of `ms` milliseconds.
    pub fn with_timeout_ms(self, ms: u64) -> (res: Self)
        ensures
            res.base_url@ == self.base_url@,
            res.timeout_ms == ms,
    {
        HorizonClient { base_url: self.base_url, timeout_ms: ms }
    }
}

} // verus!
