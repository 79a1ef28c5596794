//! Server configuration: the settings, their defaults and their validation.
pub mod advanced;
pub mod backend;
pub mod defaults;
pub mod logging;
pub mod php;
pub mod security;
pub mod server;
pub mod types;
pub mod validator;

pub use advanced::{
    AbTestConfig, CanaryConfig, CircuitBreakerConfig, DeploymentConfig, HealthCheckConfig,
    LoadBalancingConfig, RedisConfig, TracingConfig, UpstreamConfig, VariantConfig,
};
pub use backend::{BackendConfig, ConnectionPoolConfig, RoutingRule, StaticFilesConfig};
pub use logging::{LoggingConfig, MetricsConfig};
pub use php::{OpcacheConfig, PhpConfig};
pub use security::{GeoIpConfig, RateLimitConfig, WafConfig};
pub use server::{AdminConfig, ServerConfig, TlsConfig};
pub use types::{
    DeploymentStrategy, ListenType, LoadBalancingAlgorithm, PathPatternConfig, WafMode,
};

use vstd::prelude::*;

verus! {

/// The whole server configuration.
#[derive(Debug, Clone)]
pub struct Config {
    pub server: ServerConfig,
    pub php: PhpConfig,
    pub logging: LoggingConfig,
    pub metrics: MetricsConfig,
    pub waf: WafConfig,
    pub admin: AdminConfig,
    pub tls: TlsConfig,
    pub geoip: GeoIpConfig,
    pub redis: RedisConfig,
    pub tracing: TracingConfig,
    pub load_balancing: LoadBalancingConfig,
    pub deployment: DeploymentConfig,
    pub backend: BackendConfig,
}

impl Config {
    /// Checks the configuration; see `validator::validate_config`.
    pub fn validate(&self, checks: &validator::PathChecks) -> (r: Result<Vec<String>, crate::error::ParseError>)
        ensures
            r matches Ok(w) && exists|cpus: usize| cpus >= 1 && crate::deployment::ab_test::string_views(w@)
                == validator::config_findings(*self, *checks, cpus),
    {
        validator::validate_config(self, checks)
    }
}

} // verus!
