//! Monitoring: analysis of the request logs and the history of snapshots.
pub mod analyzer;
pub mod history;
