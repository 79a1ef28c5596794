//! Log records: one per request served and one per error. A floating-point memory figure
//! is kept as the bit pattern of its `f64` value.
use vstd::prelude::*;

verus! {

/// A point in time in UTC: whole seconds since the Unix epoch and the nanoseconds past
/// that second.
#[derive(Debug, Clone, Copy, PartialEq, Eq, Structural)]
pub struct Timestamp {
    pub secs: i64,
    pub nanos: u32,
}

/// `chrono::Utc::now`, read back with `timestamp` and `timestamp_subsec_nanos`: the current
/// time of the system clock. Nothing is claimed of it.
#[verifier::external_body]
fn now_utc() -> (r: Timestamp) {
    let t = chrono::Utc::now();
    Timestamp { secs: t.timestamp(), nanos: t.timestamp_subsec_nanos() }
}

/// `uuid::Uuid::new_v4` written out as text: a fresh random identifier. Nothing is
/// claimed of it.
#[verifier::external_body]
fn new_request_id() -> (r: String) {
    uuid::Uuid::new_v4().to_string()
}

/// One request served.
pub struct RequestLog {
    pub timestamp: Timestamp,
    pub level: String,
    pub request_id: String,
    pub method: String,
    pub uri: String,
    pub status: u16,
    pub duration_ms: u64,
    /// Peak memory in megabytes, as the bit pattern of an `f64`.
    pub memory_peak_mb_bits: u64,
    pub opcache_hit: bool,
    pub worker_id: Option<usize>,
    pub remote_addr: String,
    pub user_agent: Option<String>,
    pub waf_triggered: bool,
}

impl RequestLog {
    /// A record of a request served now, at level `info`, with a fresh identifier, no
    /// memory figure (0.0), no opcache hit, worker or user agent, and the firewall not
    /// triggered.
    pub fn new(method: String, uri: String, status: u16, duration_ms: u64, remote_addr: String) -> (r: RequestLog)
        ensures
            r.level@ == "info"@,
            r.method == method,
            r.uri == uri,
            r.status == status,
            r.duration_ms == duration_ms,
            r.memory_peak_mb_bits == 0,
            !r.opcache_hit,
            r.worker_id is None,
            r.remote_addr == remote_addr,
            r.user_agent is None,
            !r.waf_triggered,
    {
        RequestLog {
            timestamp: now_utc(),
            level: "info".to_string(),
            request_id: new_request_id(),
            method,
            uri,
            status,
            duration_ms,
            memory_peak_mb_bits: 0,
            opcache_hit: false,
            worker_id: None,
            remote_addr,
            user_agent: None,
            waf_triggered: false,
        }
    }

    /// A copy of the record.
    pub fn clone_log(&self) -> (r: RequestLog)
        ensures
            r == *self,
    {
        RequestLog {
            timestamp: self.timestamp,
            level: self.level.clone(),
            request_id: self.request_id.clone(),
            method: self.method.clone(),
            uri: self.uri.clone(),
            status: self.status,
            duration_ms: self.duration_ms,
            memory_peak_mb_bits: self.memory_peak_mb_bits,
            opcache_hit: self.opcache_hit,
            worker_id: self.worker_id,
            remote_addr: self.remote_addr.clone(),
            user_agent: match &self.user_agent {
                Some(a) => Some(a.clone()),
                None => None,
            },
            waf_triggered: self.waf_triggered,
        }
    }
}

/// One error.
pub struct ErrorLog {
    pub timestamp: Timestamp,
    pub level: String,
    pub request_id: Option<String>,
    pub error: String,
    pub context: Option<String>,
}

impl ErrorLog {
    /// A record of an error now, at level `error`, tied to no request.
    pub fn new(error: String, context: Option<String>) -> (r: ErrorLog)
        ensures
            r.level@ == "error"@,
            r.request_id is None,
            r.error == error,
            r.context == context,
    {
        ErrorLog { timestamp: now_utc(), level: "error".to_string(), request_id: None, error, context }
    }
}

} // verus!
