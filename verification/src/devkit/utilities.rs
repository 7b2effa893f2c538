//! Formatting, parsing, conversion and percentile utilities.
pub mod converters;
pub mod csv_reader;
pub mod formatters;
pub mod json_reader;
pub mod percentile_table;
pub mod time;
