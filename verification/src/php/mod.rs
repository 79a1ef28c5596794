//! Running PHP scripts: request and response values, header maps and script resolution.
pub mod connection_pool;
pub mod executor;
pub mod fastcgi;
pub mod worker;

use vstd::prelude::*;
use crate::config::defaults::default_fpm_socket;
pub use crate::string_map::{assoc_map, StringMap};

verus! {

broadcast use vstd::string::group_string_axioms;

/// Response or request headers.
pub type Headers = StringMap;

/// Paths and pool sizes of the PHP runtime.
#[derive(Debug, Clone)]
pub struct PhpConfig {
    pub libphp_path: String,
    pub document_root: String,
    pub worker_pool_size: usize,
    pub worker_max_requests: usize,
    pub use_fpm: bool,
    pub fpm_socket: String,
}

impl PhpConfig {
    /// The settings for the embedded runtime: the given paths and sizes, PHP-FPM off.
    pub fn new(libphp_path: String, document_root: String, worker_pool_size: usize, worker_max_requests: usize) -> (r: PhpConfig)
        ensures
            r.libphp_path == libphp_path,
            r.document_root == document_root,
            r.worker_pool_size == worker_pool_size,
            r.worker_max_requests == worker_max_requests,
            !r.use_fpm,
            r.fpm_socket@ == "127.0.0.1:9000"@,
    {
        PhpConfig {
            libphp_path,
            document_root,
            worker_pool_size,
            worker_max_requests,
            use_fpm: false,
            fpm_socket: default_fpm_socket(),
        }
    }
}

/// A request handed to a PHP backend.
#[derive(Debug, Clone)]
pub struct PhpRequest {
    pub method: String,
    pub uri: String,
    pub headers: Headers,
    pub body: Vec<u8>,
    pub query_string: String,
    pub remote_addr: String,
}

} // verus!
