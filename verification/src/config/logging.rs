//! Logging and metrics-endpoint settings.
use vstd::prelude::*;
use super::defaults::{
    default_log_format, default_log_level, default_log_output, default_metrics_endpoint,
    default_metrics_port,
};

verus! {

broadcast use vstd::string::group_string_axioms;

/// Log level, format and destination.
#[derive(Debug, Clone)]
pub struct LoggingConfig {
    pub level: String,
    pub format: String,
    pub output: String,
}

impl Default for LoggingConfig {
    /// "info" level, JSON format, written to standard output.
    fn default() -> (r: Self)
        ensures
            r.level@ == "info"@,
            r.format@ == "json"@,
            r.output@ == "stdout"@,
    {
        LoggingConfig {
            level: default_log_level(),
            format: default_log_format(),
            output: default_log_output(),
        }
    }
}

/// Where the Prometheus metrics are served.
#[derive(Debug, Clone)]
pub struct MetricsConfig {
    pub enable: bool,
    pub endpoint: String,
    pub port: u16,
}

impl Default for MetricsConfig {
    /// Metrics off; when on, served on port 9090 under /_metrics.
    fn default() -> (r: Self)
        ensures
            !r.enable,
            r.endpoint@ == "/_metrics"@,
            r.port == 9090,
    {
        MetricsConfig { enable: false, endpoint: default_metrics_endpoint(), port: default_metrics_port() }
    }
}

} // verus!
