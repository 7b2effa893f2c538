//! Query vocabulary for fee storage.
pub mod query;
