//! Fee tracking service logic: percentiles, congestion vocabulary, the
//! in-memory fee history, alert dispatch planning and polling decisions.
pub mod alerts;
pub mod congestion;
pub mod horizon;
pub mod percentile;
pub mod scheduler;
pub mod store;
pub mod webhook;
