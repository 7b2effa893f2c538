//! Fee record output.
pub mod csv;
