//! Errors that reading or writing fee JSON data reports.
use vstd::prelude::*;
use crate::text::{decimal, push_decimal, push_str, string_from};

verus! {

/// Errors that can occur when reading fee JSON data.
#[derive(Debug)]
pub enum JsonReadError {
    Io(String),
    Parse { message: String, line: usize, column: usize },
    Serialize(String),
}

impl JsonReadError {
    /// The message the error displays.
    pub open spec fn message(&self) -> Seq<char> {
        match self {
            JsonReadError::Io(e) => "IO error: "@ + e@,
            JsonReadError::Parse { message, line, column } => "JSON parse error at line "@
                + decimal(*line as nat) + ", column "@ + decimal(*column as nat) + ": "@
                + message@,
            JsonReadError::Serialize(e) => "JSON serialize error: "@ + e@,
        }
    }

    /// The message the error displays.
    pub fn to_text(&self) -> (res: String)
        ensures
            res@ == self.message(),
    {
        match self {
            JsonReadError::Io(e) => {
                let mut m = string_from("IO error: ");
                push_str(&mut m, e.as_str());
                m
            },
            JsonReadError::Parse { message, line, column } => {
                let mut m = string_from("JSON parse error at line ");
                push_decimal(&mut m, *line as u64);
                push_str(&mut m, ", column ");
                push_decimal(&mut m, *column as u64);
                push_str(&mut m, ": ");
                push_str(&mut m, message.as_str());
                m
            },
            JsonReadError::Serialize(e) => {
                let mut m = string_from("JSON serialize error: ");
                push_str(&mut m, e.as_str());
                m
            },
        }
    }
}

} // verus!
