//! Fee trend vocabulary.
pub mod trend;
