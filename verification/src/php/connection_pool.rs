//! Settings and figures of the pool of connections to PHP-FPM.
use vstd::prelude::*;

verus! {

/// The duration `std::time::Duration::from_secs` makes of a number of seconds.
pub uninterp spec fn duration_of_secs(secs: u64) -> core::time::Duration;

/// `std::time::Duration::from_secs`: the duration of `secs` whole seconds. Its result is
/// named by `duration_of_secs`.
pub assume_specification[ core::time::Duration::from_secs ](secs: u64) -> (r: core::time::Duration)
    ensures
        r == duration_of_secs(secs),
;

/// Limits of the connection pool.
#[derive(Debug, Clone, Copy)]
pub struct PoolConfig {
    pub max_size: usize,
    /// Idle connections kept ready.
    pub min_idle: usize,
    pub max_idle_time: core::time::Duration,
    pub max_lifetime: core::time::Duration,
    pub connect_timeout: core::time::Duration,
    pub enable_tcp_keepalive: bool,
}

impl Default for PoolConfig {
    /// At most 20 connections, 2 kept ready, idle ones dropped after 60 s, any dropped after
    /// an hour, 5 s to connect, TCP keep-alive on.
    fn default() -> (r: Self)
        ensures
            r.max_size == 20,
            r.min_idle == 2,
            r.max_idle_time == duration_of_secs(60),
            r.max_lifetime == duration_of_secs(3600),
            r.connect_timeout == duration_of_secs(5),
            r.enable_tcp_keepalive,
    {
        PoolConfig {
            max_size: 20,
            min_idle: 2,
            max_idle_time: core::time::Duration::from_secs(60),
            max_lifetime: core::time::Duration::from_secs(3600),
            connect_timeout: core::time::Duration::from_secs(5),
            enable_tcp_keepalive: true,
        }
    }
}

/// The pool's current and largest size.
#[derive(Debug, Clone, Copy)]
pub struct PoolStats {
    pub size: usize,
    pub max_size: usize,
}

/// Whether a returned connection is kept: the pool has room and the connection is not older
/// than the longest lifetime (ages and lifetimes in nanoseconds).
pub fn keeps_returned(pool_len: usize, max_size: usize, age_nanos: u128, max_lifetime_nanos: u128) -> (r: bool)
    ensures
        r == (pool_len < max_size && age_nanos <= max_lifetime_nanos),
{
    if pool_len >= max_size {
        return false;
    }
    if age_nanos > max_lifetime_nanos {
        return false;
    }
    true
}

/// Whether a pooled connection is still fresh: idle for less than the idle limit and younger
/// than the lifetime limit (all in nanoseconds).
pub fn is_fresh(idle_nanos: u128, age_nanos: u128, max_idle_nanos: u128, max_lifetime_nanos: u128) -> (r: bool)
    ensures
        r == (idle_nanos < max_idle_nanos && age_nanos < max_lifetime_nanos),
{
    idle_nanos < max_idle_nanos && age_nanos < max_lifetime_nanos
}

} // verus!
