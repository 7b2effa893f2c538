//! The error an operation that ran out of time reports.
use std::time::Duration;
use vstd::prelude::*;

verus! {

/// Error returned when an operation exceeds the specified timeout.
#[derive(Debug)]
pub struct TimeoutError {
    pub elapsed: Duration,
}

} // verus!
