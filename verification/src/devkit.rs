//! Developer kit: sandbox data, configuration validation, protocol helpers,
//! resilience state machines and formatting utilities.
pub mod analysis;
pub mod analytics;
pub mod config;
pub mod io;
pub mod protocol;
pub mod resilience;
pub mod sandbox;
pub mod storage;
pub mod streaming;
pub mod time_units;
pub mod utilities;
