//! Sandbox: deterministic fee data sets, assertion helpers and collectors
//! for exercising fee analysis without live infrastructure.
pub mod assertions;
pub mod collector;
pub mod environment;
pub mod fixtures;
pub mod runner;
pub mod scenario;
