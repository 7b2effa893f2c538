//! Fee comparison against reference data.
pub mod comparator;
