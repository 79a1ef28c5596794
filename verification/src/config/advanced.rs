//! Redis, tracing, load-balancing and deployment settings.
use vstd::prelude::*;
use super::defaults::{
    default_failure_threshold, default_half_open_max_requests, default_health_check_interval,
    default_health_check_path, default_health_check_timeout, default_healthy_threshold,
    default_max_error_rate_bits, default_min_observation_period, default_min_requests,
    default_otlp_endpoint, default_redis_pool_size, default_redis_prefix, default_redis_timeout,
    default_redis_url, default_sample_rate_bits, default_service_name, default_success_threshold,
    default_timeout_seconds, default_unhealthy_threshold,
};
use super::types::{DeploymentStrategy, LoadBalancingAlgorithm};

verus! {

broadcast use vstd::string::group_string_axioms;

/// Redis connection settings.
#[derive(Debug, Clone)]
pub struct RedisConfig {
    pub enable: bool,
    pub url: String,
    pub pool_size: u32,
    pub timeout_ms: u64,
    pub key_prefix: String,
}

impl Default for RedisConfig {
    /// Redis off; when on, a pool of 10 connections to redis://127.0.0.1:6379.
    fn default() -> (r: Self)
        ensures
            !r.enable,
            r.url@ == "redis://127.0.0.1:6379"@,
            r.pool_size == 10,
            r.timeout_ms == 5000,
            r.key_prefix@ == "fe_php:"@,
    {
        RedisConfig {
            enable: false,
            url: default_redis_url(),
            pool_size: default_redis_pool_size(),
            timeout_ms: default_redis_timeout(),
            key_prefix: default_redis_prefix(),
        }
    }
}

/// Distributed tracing settings. The sample rate is a floating-point number and is kept
/// here as the bit pattern of its `f64` value.
#[derive(Debug, Clone)]
pub struct TracingConfig {
    pub enable: bool,
    pub otlp_endpoint: String,
    pub service_name: String,
    pub sample_rate_bits: u64,
}

impl Default for TracingConfig {
    /// Tracing off, sampling everything, exporting to localhost:4317 as "fe-php".
    fn default() -> (r: Self)
        ensures
            !r.enable,
            r.otlp_endpoint@ == "http://localhost:4317"@,
            r.service_name@ == "fe-php"@,
            r.sample_rate_bits == 0x3FF0_0000_0000_0000,
    {
        TracingConfig {
            enable: false,
            otlp_endpoint: default_otlp_endpoint(),
            service_name: default_service_name(),
            sample_rate_bits: default_sample_rate_bits(),
        }
    }
}

/// Load-balancing settings.
#[derive(Debug, Clone)]
pub struct LoadBalancingConfig {
    pub enable: bool,
    pub upstreams: Vec<UpstreamConfig>,
    pub algorithm: LoadBalancingAlgorithm,
    pub health_check: HealthCheckConfig,
    pub circuit_breaker: CircuitBreakerConfig,
}

impl Default for LoadBalancingConfig {
    /// Load balancing off, no upstreams, round robin, default checks and breaker.
    fn default() -> (r: Self)
        ensures
            !r.enable,
            r.upstreams@.len() == 0,
            r.algorithm == LoadBalancingAlgorithm::RoundRobin,
            r.health_check.enable,
            !r.circuit_breaker.enable,
    {
        LoadBalancingConfig {
            enable: false,
            upstreams: Vec::new(),
            algorithm: LoadBalancingAlgorithm::RoundRobin,
            health_check: HealthCheckConfig::default(),
            circuit_breaker: CircuitBreakerConfig::default(),
        }
    }
}

/// One upstream server.
#[derive(Debug, Clone)]
pub struct UpstreamConfig {
    pub name: String,
    pub url: String,
    pub weight: u32,
    pub enabled: bool,
}

/// Active health-check settings.
#[derive(Debug, Clone)]
pub struct HealthCheckConfig {
    pub enable: bool,
    pub path: String,
    pub interval_seconds: u64,
    pub timeout_seconds: u64,
    pub unhealthy_threshold: u32,
    pub healthy_threshold: u32,
}

impl Default for HealthCheckConfig {
    /// Checks on, probing /_health every 30 s with a 5 s timeout; 3 failures mark an
    /// upstream unhealthy, 2 successes healthy again.
    fn default() -> (r: Self)
        ensures
            r.enable,
            r.path@ == "/_health"@,
            r.interval_seconds == 30,
            r.timeout_seconds == 5,
            r.unhealthy_threshold == 3,
            r.healthy_threshold == 2,
    {
        HealthCheckConfig {
            enable: true,
            path: default_health_check_path(),
            interval_seconds: default_health_check_interval(),
            timeout_seconds: default_health_check_timeout(),
            unhealthy_threshold: default_unhealthy_threshold(),
            healthy_threshold: default_healthy_threshold(),
        }
    }
}

/// Circuit-breaker settings.
#[derive(Debug, Clone, Copy)]
pub struct CircuitBreakerConfig {
    pub enable: bool,
    pub failure_threshold: usize,
    pub success_threshold: usize,
    pub timeout_seconds: u64,
    pub half_open_max_requests: usize,
}

impl Default for CircuitBreakerConfig {
    /// Breaker off; when on it opens after 5 failures, probes after 60 s and closes after
    /// 2 successes, letting 3 requests through while half open.
    fn default() -> (r: Self)
        ensures
            !r.enable,
            r.failure_threshold == 5,
            r.success_threshold == 2,
            r.timeout_seconds == 60,
            r.half_open_max_requests == 3,
    {
        CircuitBreakerConfig {
            enable: false,
            failure_threshold: default_failure_threshold(),
            success_threshold: default_success_threshold(),
            timeout_seconds: default_timeout_seconds(),
            half_open_max_requests: default_half_open_max_requests(),
        }
    }
}

/// Staged-deployment settings.
#[derive(Debug, Clone)]
pub struct DeploymentConfig {
    pub enable: bool,
    pub strategy: DeploymentStrategy,
    pub variants: Vec<VariantConfig>,
    pub sticky_sessions: bool,
    pub ab_test: AbTestConfig,
    pub canary: CanaryConfig,
}

impl Default for DeploymentConfig {
    /// Deployments off, A/B strategy, no variants, sticky sessions on.
    fn default() -> (r: Self)
        ensures
            !r.enable,
            r.strategy == DeploymentStrategy::AbTest,
            r.variants@.len() == 0,
            r.sticky_sessions,
            r.ab_test.track_conversion,
            r.ab_test.min_requests_per_variant == 100,
            r.canary.max_response_time_ms is None,
            r.canary.min_observation_period_secs == 60,
            r.canary.min_requests_before_decision == 100,
    {
        DeploymentConfig {
            enable: false,
            strategy: DeploymentStrategy::AbTest,
            variants: Vec::new(),
            sticky_sessions: true,
            ab_test: AbTestConfig::default(),
            canary: CanaryConfig::default(),
        }
    }
}

/// One deployment variant and its share of the traffic.
#[derive(Debug, Clone)]
pub struct VariantConfig {
    pub name: String,
    pub weight: u32,
    pub upstream: String,
    pub metrics_tracking: bool,
}

/// A/B-test settings.
#[derive(Debug, Clone, Copy)]
pub struct AbTestConfig {
    pub track_conversion: bool,
    pub min_requests_per_variant: u64,
}

impl Default for AbTestConfig {
    /// Conversions tracked; 100 requests per variant before a winner is named.
    fn default() -> (r: Self)
        ensures
            r.track_conversion,
            r.min_requests_per_variant == 100,
    {
        AbTestConfig { track_conversion: true, min_requests_per_variant: default_min_requests() }
    }
}

/// Canary-release settings. The highest tolerated error rate is a floating-point number
/// and is kept here as the bit pattern of its `f64` value.
#[derive(Debug, Clone, Copy)]
pub struct CanaryConfig {
    pub max_error_rate_bits: u64,
    pub max_response_time_ms: Option<u64>,
    pub min_observation_period_secs: u64,
    pub min_requests_before_decision: u64,
}

impl Default for CanaryConfig {
    /// Error rate up to 0.05, no response-time limit, 60 s phases, 100 requests per decision.
    fn default() -> (r: Self)
        ensures
            r.max_error_rate_bits == 0x3FA9_9999_9999_999A,
            r.max_response_time_ms is None,
            r.min_observation_period_secs == 60,
            r.min_requests_before_decision == 100,
    {
        CanaryConfig {
            max_error_rate_bits: default_max_error_rate_bits(),
            max_response_time_ms: None,
            min_observation_period_secs: default_min_observation_period(),
            min_requests_before_decision: default_min_requests(),
        }
    }
}

} // verus!
