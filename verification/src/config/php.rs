//! PHP runtime settings.
use vstd::prelude::*;
use super::defaults::{
    default_fpm_socket, default_max_files, default_max_requests, default_opcache_memory,
    default_workers,
};

verus! {

broadcast use vstd::string::group_string_axioms;

/// How PHP scripts are run: the embedded library or PHP-FPM.
#[derive(Debug, Clone)]
pub struct PhpConfig {
    pub libphp_path: String,
    pub document_root: String,
    pub worker_pool_size: usize,
    pub worker_max_requests: usize,
    pub opcache: OpcacheConfig,
    pub use_fpm: bool,
    pub fpm_socket: String,
}

impl PhpConfig {
    /// The settings for a library path and document root, with every other key at its default.
    pub fn with_paths(libphp_path: String, document_root: String) -> (r: PhpConfig)
        ensures
            r.libphp_path == libphp_path,
            r.document_root == document_root,
            r.worker_pool_size >= 1,
            r.worker_max_requests == 1000,
            r.opcache.enable,
            !r.use_fpm,
            r.fpm_socket@ == "127.0.0.1:9000"@,
    {
        PhpConfig {
            libphp_path,
            document_root,
            worker_pool_size: default_workers(),
            worker_max_requests: default_max_requests(),
            opcache: OpcacheConfig::default(),
            use_fpm: false,
            fpm_socket: default_fpm_socket(),
        }
    }
}

/// OPcache settings.
#[derive(Debug, Clone)]
pub struct OpcacheConfig {
    pub enable: bool,
    pub memory_size: String,
    pub max_files: usize,
    pub validate_timestamps: bool,
}

impl Default for OpcacheConfig {
    /// OPcache on with 256M and 10000 scripts, timestamps not revalidated.
    fn default() -> (r: Self)
        ensures
            r.enable,
            r.memory_size@ == "256M"@,
            r.max_files == 10000,
            !r.validate_timestamps,
    {
        OpcacheConfig {
            enable: true,
            memory_size: default_opcache_memory(),
            max_files: default_max_files(),
            validate_timestamps: false,
        }
    }
}

} // verus!
