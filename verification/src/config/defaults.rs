//! Default values of the configuration settings.
use vstd::prelude::*;

verus! {

broadcast use vstd::string::group_string_axioms;

/// `num_cpus::get`: the number of logical CPUs available to this process. Its
/// documentation promises at least 1; nothing else about the value is claimed, as it
/// depends on the machine.
#[verifier::external_body]
pub(crate) fn available_cpus() -> (n: usize)
    ensures
        n >= 1,
{
    num_cpus::get()
}

/// Worker threads and processes: one per available CPU.
pub fn default_workers() -> (r: usize)
    ensures
        r >= 1,
{
    available_cpus()
}

/// Tracing sample rate 1.0, as the bit pattern of the `f64` (floating-point values are
/// stored by their bits).
pub fn default_sample_rate_bits() -> (r: u64)
    ensures
        r == 0x3FF0_0000_0000_0000,
{
    0x3FF0_0000_0000_0000
}

/// Highest tolerated canary error rate, 0.05, as the bit pattern of the `f64`.
pub fn default_max_error_rate_bits() -> (r: u64)
    ensures
        r == 0x3FA9_9999_9999_999A,
{
    0x3FA9_9999_9999_999A
}

/// Index files looked for in a directory.
pub fn default_index_files() -> (r: Vec<String>)
    ensures
        r@.len() == 2,
        r@[0]@ == "index.html"@,
        r@[1]@ == "index.htm"@,
{
    let mut v = Vec::new();
    v.push("index.html".to_string());
    v.push("index.htm".to_string());
    v
}

/// Client addresses allowed to reach the admin API.
pub fn default_allowed_ips() -> (r: Vec<String>)
    ensures
        r@.len() == 1,
        r@[0]@ == "127.0.0.1"@,
{
    let mut v = Vec::new();
    v.push("127.0.0.1".to_string());
    v
}

/// Address the server binds to by default.
pub fn default_host() -> (r: String)
    ensures
        r@ == "0.0.0.0"@,
{
    "0.0.0.0".to_string()
}

/// Port the server listens on by default.
pub fn default_port() -> (r: u16)
    ensures
        r == 8080,
{
    8080
}

/// Plain-HTTP port used for redirects when TLS is on.
pub fn default_http_port() -> (r: u16)
    ensures
        r == 80,
{
    80
}

/// Requests a PHP worker serves before it is restarted.
pub fn default_max_requests() -> (r: usize)
    ensures
        r == 1000,
{
    1000
}

/// Address of the PHP-FPM listener.
pub fn default_fpm_socket() -> (r: String)
    ensures
        r@ == "127.0.0.1:9000"@,
{
    "127.0.0.1:9000".to_string()
}

/// Default for switches that are on unless turned off.
pub fn default_true() -> (r: bool)
    ensures
        r == true,
{
    true
}

/// Memory given to OPcache.
pub fn default_opcache_memory() -> (r: String)
    ensures
        r@ == "256M"@,
{
    "256M".to_string()
}

/// Scripts OPcache may hold.
pub fn default_max_files() -> (r: usize)
    ensures
        r == 10000,
{
    10000
}

/// Log level.
pub fn default_log_level() -> (r: String)
    ensures
        r@ == "info"@,
{
    "info".to_string()
}

/// Log format.
pub fn default_log_format() -> (r: String)
    ensures
        r@ == "json"@,
{
    "json".to_string()
}

/// Where logs are written.
pub fn default_log_output() -> (r: String)
    ensures
        r@ == "stdout"@,
{
    "stdout".to_string()
}

/// Path the metrics are served on.
pub fn default_metrics_endpoint() -> (r: String)
    ensures
        r@ == "/_metrics"@,
{
    "/_metrics".to_string()
}

/// Port the metrics are served on.
pub fn default_metrics_port() -> (r: u16)
    ensures
        r == 9090,
{
    9090
}

/// Requests allowed per client address and window.
pub fn default_rate_limit() -> (r: u32)
    ensures
        r == 100,
{
    100
}

/// Length of the rate-limit window, in seconds.
pub fn default_window_seconds() -> (r: u64)
    ensures
        r == 60,
{
    60
}

/// Requests allowed above the limit in a burst.
pub fn default_burst() -> (r: u32)
    ensures
        r == 10,
{
    10
}

/// Address the admin HTTP API binds to.
pub fn default_admin_host() -> (r: String)
    ensures
        r@ == "127.0.0.1"@,
{
    "127.0.0.1".to_string()
}

/// Path of the admin Unix socket.
pub fn default_admin_socket() -> (r: String)
    ensures
        r@ == "/var/run/fe-php.sock"@,
{
    "/var/run/fe-php.sock".to_string()
}

/// Port of the admin HTTP API.
pub fn default_admin_port() -> (r: u16)
    ensures
        r == 9000,
{
    9000
}

/// Address of the Redis server.
pub fn default_redis_url() -> (r: String)
    ensures
        r@ == "redis://127.0.0.1:6379"@,
{
    "redis://127.0.0.1:6379".to_string()
}

/// Connections kept to Redis.
pub fn default_redis_pool_size() -> (r: u32)
    ensures
        r == 10,
{
    10
}

/// Redis timeout, in milliseconds.
pub fn default_redis_timeout() -> (r: u64)
    ensures
        r == 5000,
{
    5000
}

/// Prefix of the Redis keys the server writes.
pub fn default_redis_prefix() -> (r: String)
    ensures
        r@ == "fe_php:"@,
{
    "fe_php:".to_string()
}

/// OTLP collector address.
pub fn default_otlp_endpoint() -> (r: String)
    ensures
        r@ == "http://localhost:4317"@,
{
    "http://localhost:4317".to_string()
}

/// Service name reported to tracing.
pub fn default_service_name() -> (r: String)
    ensures
        r@ == "fe-php"@,
{
    "fe-php".to_string()
}

/// Weight of an upstream server.
pub fn default_weight() -> (r: u32)
    ensures
        r == 1,
{
    1
}

/// Path probed by upstream health checks.
pub fn default_health_check_path() -> (r: String)
    ensures
        r@ == "/_health"@,
{
    "/_health".to_string()
}

/// Seconds between health checks.
pub fn default_health_check_interval() -> (r: u64)
    ensures
        r == 30,
{
    30
}

/// Seconds a health check may take.
pub fn default_health_check_timeout() -> (r: u64)
    ensures
        r == 5,
{
    5
}

/// Consecutive failed checks that mark an upstream unhealthy.
pub fn default_unhealthy_threshold() -> (r: u32)
    ensures
        r == 3,
{
    3
}

/// Consecutive passed checks that mark an upstream healthy.
pub fn default_healthy_threshold() -> (r: u32)
    ensures
        r == 2,
{
    2
}

/// Failures that open a circuit breaker.
pub fn default_failure_threshold() -> (r: usize)
    ensures
        r == 5,
{
    5
}

/// Successes in half-open state that close a circuit breaker.
pub fn default_success_threshold() -> (r: usize)
    ensures
        r == 2,
{
    2
}

/// Seconds an open circuit breaker waits before probing.
pub fn default_timeout_seconds() -> (r: u64)
    ensures
        r == 60,
{
    60
}

/// Requests let through a half-open circuit breaker.
pub fn default_half_open_max_requests() -> (r: usize)
    ensures
        r == 3,
{
    3
}

/// Requests a variant needs before a deployment decision.
pub fn default_min_requests() -> (r: u64)
    ensures
        r == 100,
{
    100
}

/// Seconds a canary phase is observed before a decision.
pub fn default_min_observation_period() -> (r: u64)
    ensures
        r == 60,
{
    60
}

/// Backend used when no routing rule matches.
pub fn default_backend_type() -> (r: String)
    ensures
        r@ == "embedded"@,
{
    "embedded".to_string()
}

/// Priority of a routing rule.
pub fn default_priority() -> (r: u32)
    ensures
        r == 50,
{
    50
}

/// Connections a FastCGI pool keeps.
pub fn default_pool_max_size() -> (r: usize)
    ensures
        r == 20,
{
    20
}

/// Seconds a pooled connection may stay idle.
pub fn default_pool_max_idle_time() -> (r: u64)
    ensures
        r == 60,
{
    60
}

/// Seconds a pooled connection may live.
pub fn default_pool_max_lifetime() -> (r: u64)
    ensures
        r == 3600,
{
    3600
}

/// Seconds allowed for connecting to FastCGI.
pub fn default_pool_connect_timeout() -> (r: u64)
    ensures
        r == 5,
{
    5
}

} // verus!
