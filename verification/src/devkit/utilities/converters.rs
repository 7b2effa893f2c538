//! Stroop/XLM conversion errors.
use vstd::prelude::*;

verus! {

/// Errors during stroop/XLM conversion.
#[derive(Debug, Clone, Copy, PartialEq, Eq, Structural)]
pub enum ConversionError {
    NegativeXlm,
}

impl ConversionError {
    /// The message the error displays.
    pub fn to_text(&self) -> (res: String)
        ensures
            res@ == "XLM value must be non-negative"@,
    {
        crate::text::string_from("XLM value must be non-negative")
    }
}

} // verus!
