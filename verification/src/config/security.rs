//! Firewall, rate-limit and geographic filtering settings.
use vstd::prelude::*;
use super::defaults::{default_burst, default_rate_limit, default_window_seconds};
use super::types::WafMode;

verus! {

/// Web application firewall settings.
#[derive(Debug, Clone)]
pub struct WafConfig {
    pub enable: bool,
    pub mode: WafMode,
    pub rules_path: Option<String>,
    pub rate_limit: RateLimitConfig,
}

impl Default for WafConfig {
    /// Firewall off, mode off, no rules file, default rate limit.
    fn default() -> (r: Self)
        ensures
            !r.enable,
            r.mode == WafMode::Off,
            r.rules_path is None,
            r.rate_limit.requests_per_ip == 100,
            r.rate_limit.window_seconds == 60,
            r.rate_limit.burst == 10,
    {
        WafConfig {
            enable: false,
            mode: WafMode::Off,
            rules_path: None,
            rate_limit: RateLimitConfig::default(),
        }
    }
}

/// Per-client-address request limit.
#[derive(Debug, Clone)]
pub struct RateLimitConfig {
    pub requests_per_ip: u32,
    pub window_seconds: u64,
    pub burst: u32,
}

impl Default for RateLimitConfig {
    /// 100 requests per 60 seconds, with a burst of 10.
    fn default() -> (r: Self)
        ensures
            r.requests_per_ip == 100,
            r.window_seconds == 60,
            r.burst == 10,
    {
        RateLimitConfig {
            requests_per_ip: default_rate_limit(),
            window_seconds: default_window_seconds(),
            burst: default_burst(),
        }
    }
}

/// Country-based filtering settings.
#[derive(Debug, Clone)]
pub struct GeoIpConfig {
    pub enable: bool,
    pub database_path: Option<String>,
    pub allowed_countries: Vec<String>,
    pub blocked_countries: Vec<String>,
}

impl Default for GeoIpConfig {
    /// Filtering off, no database, no country lists.
    fn default() -> (r: Self)
        ensures
            !r.enable,
            r.database_path is None,
            r.allowed_countries@.len() == 0,
            r.blocked_countries@.len() == 0,
    {
        GeoIpConfig {
            enable: false,
            database_path: None,
            allowed_countries: Vec::new(),
            blocked_countries: Vec::new(),
        }
    }
}

} // verus!
