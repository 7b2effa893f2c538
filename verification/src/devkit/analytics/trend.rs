//! Direction of a fee trend.
use vstd::prelude::*;

verus! {

/// Direction of a fee trend over a time window.
#[derive(Debug, Clone, Copy, PartialEq, Eq, Structural)]
pub enum TrendDirection {
    Up,
    Down,
    Sideways,
}

impl TrendDirection {
    /// The lower-case name of the direction.
    pub open spec fn name(self) -> Seq<char> {
        match self {
            TrendDirection::Up => "up"@,
            TrendDirection::Down => "down"@,
            TrendDirection::Sideways => "sideways"@,
        }
    }

    /// The lower-case name of the direction, as displayed.
    pub fn to_text(&self) -> (res: String)
        ensures
            res@ == self.name(),
    {
        match self {
            TrendDirection::Up => crate::text::string_from("up"),
            TrendDirection::Down => crate::text::string_from("down"),
            TrendDirection::Sideways => crate::text::string_from("sideways"),
        }
    }
}

} // verus!
