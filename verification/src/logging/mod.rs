//! Structured request and error log records.
pub mod structured;
