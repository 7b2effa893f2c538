//! Configuration checks for the devkit.
pub mod overrides;
pub mod table;
pub mod validator;
