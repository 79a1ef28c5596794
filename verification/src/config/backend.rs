//! Settings of the hybrid backend: routing rules, static files and FastCGI pooling.
use vstd::prelude::*;
use super::advanced::CircuitBreakerConfig;
use super::defaults::{
    default_backend_type, default_index_files, default_pool_connect_timeout,
    default_pool_max_idle_time, default_pool_max_lifetime, default_pool_max_size,
};
use super::types::PathPatternConfig;

verus! {

broadcast use vstd::string::group_string_axioms;

/// Which backends serve which paths.
#[derive(Debug, Clone)]
pub struct BackendConfig {
    pub enable_hybrid: bool,
    pub default_backend: String,
    pub routing_rules: Vec<RoutingRule>,
    pub static_files: StaticFilesConfig,
    pub connection_pool: ConnectionPoolConfig,
}

impl Default for BackendConfig {
    /// Hybrid routing off, the embedded backend by default, no rules.
    fn default() -> (r: Self)
        ensures
            !r.enable_hybrid,
            r.default_backend@ == "embedded"@,
            r.routing_rules@.len() == 0,
            !r.static_files.enable,
            r.connection_pool.max_size == 20,
    {
        BackendConfig {
            enable_hybrid: false,
            default_backend: default_backend_type(),
            routing_rules: Vec::new(),
            static_files: StaticFilesConfig::default(),
            connection_pool: ConnectionPoolConfig::default(),
        }
    }
}

/// Sends the paths matching `pattern` to the backend named `backend`; rules of higher
/// priority are tried first.
#[derive(Debug, Clone)]
pub struct RoutingRule {
    pub pattern: PathPatternConfig,
    pub backend: String,
    pub priority: u32,
}

/// Static-file serving settings.
#[derive(Debug, Clone)]
pub struct StaticFilesConfig {
    pub enable: bool,
    pub root: Option<String>,
    pub index_files: Vec<String>,
}

impl Default for StaticFilesConfig {
    /// Static serving off, no root, index.html then index.htm as index files.
    fn default() -> (r: Self)
        ensures
            !r.enable,
            r.root is None,
            r.index_files@.len() == 2,
            r.index_files@[0]@ == "index.html"@,
            r.index_files@[1]@ == "index.htm"@,
    {
        StaticFilesConfig { enable: false, root: None, index_files: default_index_files() }
    }
}

/// FastCGI connection-pool settings.
#[derive(Debug, Clone, Copy)]
pub struct ConnectionPoolConfig {
    pub max_size: usize,
    pub max_idle_time_secs: u64,
    pub max_lifetime_secs: u64,
    pub connect_timeout_secs: u64,
    pub enable_metrics: bool,
    pub circuit_breaker: CircuitBreakerConfig,
}

impl Default for ConnectionPoolConfig {
    /// 20 connections, idle for at most 60 s and alive for at most an hour, 5 s to
    /// connect, metrics on, breaker at its defaults.
    fn default() -> (r: Self)
        ensures
            r.max_size == 20,
            r.max_idle_time_secs == 60,
            r.max_lifetime_secs == 3600,
            r.connect_timeout_secs == 5,
            r.enable_metrics,
            !r.circuit_breaker.enable,
            r.circuit_breaker.failure_threshold == 5,
    {
        ConnectionPoolConfig {
            max_size: default_pool_max_size(),
            max_idle_time_secs: default_pool_max_idle_time(),
            max_lifetime_secs: default_pool_max_lifetime(),
            connect_timeout_secs: default_pool_connect_timeout(),
            enable_metrics: true,
            circuit_breaker: CircuitBreakerConfig::default(),
        }
    }
}

} // verus!
