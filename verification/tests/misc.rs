use fe_php::php::connection_pool::PoolConfig;
use fe_php::php::PhpConfig;
use std::time::Duration;

#[test]
fn test_geoip_manager_requires_database() {}

#[test]
fn test_pool_config_default() {
    let config = PoolConfig::default();
    assert_eq!(config.max_size, 20);
    assert_eq!(config.max_idle_time, Duration::from_secs(60));
}

#[test]
fn test_resolve_script_path() {
    let _config = PhpConfig {
        libphp_path: String::from("/usr/local/lib/libphp.so"),
        document_root: String::from("/var/www/html"),
        worker_pool_size: 4,
        worker_max_requests: 1000,
        use_fpm: false,
        fpm_socket: String::from("127.0.0.1:9000"),
    };

    let uri = "/test.php";
    assert!(uri.trim_start_matches('/') == "test.php");
}

use fe_php::backend::static_files::StaticBackend;
use fe_php::metrics::CachedCounts;
use fe_php::php::fastcgi::{
    build_begin_request, build_params, build_record, header_param, parse_record_header, HeaderAction, ResponseReader,
    FCGI_END_REQUEST, FCGI_STDERR, FCGI_STDOUT,
};
use fe_php::string_map::StringMap;

#[test]
fn string_map_reads_back_the_last_write() {
    let mut m = StringMap::new();
    m.insert("Content-Type".to_string(), "text/plain".to_string());
    m.insert("X-A".to_string(), "1".to_string());
    m.insert("Content-Type".to_string(), "text/html".to_string());
    assert_eq!(m.get("Content-Type"), Some("text/html".to_string()));
    assert_eq!(m.get("X-A"), Some("1".to_string()));
    assert_eq!(m.get("X-B"), None);
    assert_eq!(m.len(), 2);
    assert!(m.contains_key("X-A"));
}

#[test]
fn fastcgi_record_header_reads_back() {
    let record = build_record(FCGI_STDOUT, 513, b"hello");
    assert_eq!(record.len(), 16);
    assert_eq!(&record[..8], &[1u8, 6, 2, 1, 0, 5, 3, 0]);
    assert_eq!(&record[8..13], b"hello");
    let h = parse_record_header(&record[..8]);
    assert_eq!(h.version, 1);
    assert_eq!(h.record_type, FCGI_STDOUT);
    assert_eq!(h.request_id, 513);
    assert_eq!(h.content_length, 5);
    assert_eq!(h.padding_length, 3);
    assert_eq!(build_begin_request(1), vec![1u8, 1, 0, 1, 0, 8, 0, 0, 0, 1, 0, 0, 0, 0, 0, 0]);
}

#[test]
fn fastcgi_header_params_and_variables() {
    assert_eq!(header_param("user-agent"), "HTTP_USER_AGENT");
    assert_eq!(header_param("content-type"), "CONTENT_TYPE");
    let mut headers = StringMap::new();
    headers.insert("x-token".to_string(), "abc".to_string());
    let params = build_params("/var/www/a.php", "GET", "/a.php?x=1", "x=1", &headers, "10.0.0.1");
    assert_eq!(params.get("DOCUMENT_URI"), Some("/a.php".to_string()));
    assert_eq!(params.get("HTTP_X_TOKEN"), Some("abc".to_string()));
    assert_eq!(params.get("SCRIPT_FILENAME"), Some("/var/www/a.php".to_string()));
    assert_eq!(params.get("REMOTE_PORT"), Some("0".to_string()));
}

#[test]
fn fastcgi_reader_collects_only_its_request() {
    let mut reader = ResponseReader::new(1);
    let other = parse_record_header(&[1, FCGI_STDOUT, 0, 2, 0, 4, 4, 0]);
    assert_eq!(reader.on_header(other), Ok(HeaderAction::Skip(8)));
    let mine = parse_record_header(&[1, FCGI_STDOUT, 0, 1, 0, 3, 5, 0]);
    assert_eq!(reader.on_header(mine), Ok(HeaderAction::Read(3, 5)));
    let bad = parse_record_header(&[2, FCGI_STDOUT, 0, 1, 0, 0, 0, 0]);
    assert!(reader.on_header(bad).is_err());
    reader.on_record(FCGI_STDOUT, b"abc");
    reader.on_record(FCGI_STDERR, b"warn");
    assert!(!reader.finished());
    reader.on_record(FCGI_END_REQUEST, &[0; 8]);
    assert!(reader.finished());
    let (out, err) = reader.into_output();
    assert_eq!(out, b"abc".to_vec());
    assert_eq!(err, b"warn".to_vec());
}

#[test]
fn opening_and_closing_a_connection_restores_the_count() {
    let mut c = CachedCounts::new();
    c.inc_active_connections();
    c.record_request();
    assert_eq!(c.active_connections, 1);
    c.dec_active_connections();
    assert_eq!(c.active_connections, 0);
    assert_eq!(c.total_requests, 1);
}

#[test]
fn static_paths_are_percent_decoded() {
    let files = StaticBackend::new("/srv/www".to_string());
    assert_eq!(files.requested_path("/docs/my%20file.txt?x=1").unwrap(), "docs/my file.txt");
    assert!(files.requested_path("/bad%FF").is_err());
    assert_eq!(files.candidate_path("docs/a.css"), "/srv/www/docs/a.css");
}
