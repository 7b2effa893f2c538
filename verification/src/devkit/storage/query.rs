//! Result ordering for fee queries.
use vstd::prelude::*;

verus! {

/// Order of query results by time.
#[derive(Debug, Clone, Copy, PartialEq, Eq, Structural)]
pub enum SortOrder {
    Asc,
    Desc,
}

impl Default for SortOrder {
    fn default() -> (res: Self)
        ensures
            res == SortOrder::Asc,
    {
        SortOrder::Asc
    }
}

} // verus!
