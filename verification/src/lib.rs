//! Fee tracking and devkit library for Stellar network fees.
pub mod devkit;
pub mod order;
pub mod text;
pub mod tracker;
