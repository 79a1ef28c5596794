//! Listener, TLS and admin-interface settings.
use vstd::prelude::*;
use super::defaults::{
    default_admin_host, default_admin_port, default_admin_socket, default_allowed_ips,
    default_host, default_http_port, default_port, default_workers,
};
use super::types::ListenType;

verus! {

broadcast use vstd::string::group_string_axioms;

/// Where and how the HTTP server listens.
#[derive(Debug, Clone)]
pub struct ServerConfig {
    pub host: String,
    pub port: u16,
    pub workers: usize,
    pub enable_http2: bool,
    pub multi_process: bool,
    pub process_count: usize,
    pub listen_type: ListenType,
    pub unix_socket_path: Option<String>,
}

impl Default for ServerConfig {
    /// The settings a `[server]` section with no keys stands for.
    fn default() -> (r: Self)
        ensures
            r.host@ == "0.0.0.0"@,
            r.port == 8080,
            r.workers >= 1,
            !r.enable_http2,
            !r.multi_process,
            r.process_count >= 1,
            r.listen_type == ListenType::Tcp,
            r.unix_socket_path is None,
    {
        ServerConfig {
            host: default_host(),
            port: default_port(),
            workers: default_workers(),
            enable_http2: false,
            multi_process: false,
            process_count: default_workers(),
            listen_type: ListenType::Tcp,
            unix_socket_path: None,
        }
    }
}

/// TLS termination settings.
#[derive(Debug, Clone)]
pub struct TlsConfig {
    pub enable: bool,
    pub cert_path: Option<String>,
    pub key_path: Option<String>,
    pub ca_cert_path: Option<String>,
    pub alpn_protocols: Vec<String>,
    pub http_redirect: bool,
    pub http_port: u16,
}

impl Default for TlsConfig {
    /// TLS off, ALPN offering HTTP/2 then HTTP/1.1, redirects from port 80 off.
    fn default() -> (r: Self)
        ensures
            !r.enable,
            r.cert_path is None,
            r.key_path is None,
            r.ca_cert_path is None,
            r.alpn_protocols@.len() == 2,
            r.alpn_protocols@[0]@ == "h2"@,
            r.alpn_protocols@[1]@ == "http/1.1"@,
            !r.http_redirect,
            r.http_port == 80,
    {
        let mut alpn = Vec::new();
        alpn.push("h2".to_string());
        alpn.push("http/1.1".to_string());
        TlsConfig {
            enable: false,
            cert_path: None,
            key_path: None,
            ca_cert_path: None,
            alpn_protocols: alpn,
            http_redirect: false,
            http_port: default_http_port(),
        }
    }
}

/// Settings of the administration interface.
#[derive(Debug, Clone)]
pub struct AdminConfig {
    pub enable: bool,
    pub host: String,
    pub unix_socket: String,
    pub http_port: u16,
    pub allowed_ips: Vec<String>,
}

impl Default for AdminConfig {
    /// Admin interface off; when enabled it listens on 127.0.0.1:9000 and
    /// /var/run/fe-php.sock and admits 127.0.0.1 only.
    fn default() -> (r: Self)
        ensures
            !r.enable,
            r.host@ == "127.0.0.1"@,
            r.unix_socket@ == "/var/run/fe-php.sock"@,
            r.http_port == 9000,
            r.allowed_ips@.len() == 1,
            r.allowed_ips@[0]@ == "127.0.0.1"@,
    {
        AdminConfig {
            enable: false,
            host: default_admin_host(),
            unix_socket: default_admin_socket(),
            http_port: default_admin_port(),
            allowed_ips: default_allowed_ips(),
        }
    }
}

} // verus!
