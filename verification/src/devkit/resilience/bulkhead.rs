//! The error a full bulkhead reports.
use vstd::prelude::*;

verus! {

/// A bulkhead has no free slot.
#[derive(Debug, Clone, Copy, PartialEq, Eq, Structural)]
pub struct BulkheadFull;

impl BulkheadFull {
    /// The message the error displays.
    pub fn to_text(&self) -> (res: String)
        ensures
            res@ == "bulkhead at capacity"@,
    {
        crate::text::string_from("bulkhead at capacity")
    }
}

} // verus!
