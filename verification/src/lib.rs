//! An all-in-one PHP application server: routing between embedded, FastCGI and
//! static-file backends, load balancing, staged deployments and administration.
use vstd::prelude::*;

pub mod admin;
pub mod backend;
pub mod config;
pub mod deployment;
pub mod load_balancing;
pub mod logging;
pub mod metrics;
pub mod monitor;
pub mod path;
pub mod php;
pub mod redis_session;
pub mod error;
pub mod geoip;
pub mod string_map;
pub mod text;

verus! {

/// Prepares process-wide metrics state; the collector registers its own metrics, so
/// nothing is needed.
pub fn init_metrics() {
}

} // verus!
