use fe_php::config::validator::{config_findings_for, validate_config, PathChecks};
use fe_php::config::{
    AdminConfig, BackendConfig, PhpConfig, Config, DeploymentConfig, GeoIpConfig, LoadBalancingConfig, LoggingConfig,
    MetricsConfig, RedisConfig, ServerConfig, TlsConfig, TracingConfig, WafConfig, WafMode,
};

fn base_config() -> Config {
    let mut server = ServerConfig::default();
    server.workers = 4;
    let mut php = PhpConfig::with_paths("/usr/lib/libphp.so".to_string(), "/var/www".to_string());
    php.opcache.validate_timestamps = false;
    Config {
        server,
        php,
        logging: LoggingConfig::default(),
        metrics: MetricsConfig::default(),
        waf: WafConfig::default(),
        admin: AdminConfig::default(),
        tls: TlsConfig::default(),
        geoip: GeoIpConfig::default(),
        redis: RedisConfig::default(),
        tracing: TracingConfig::default(),
        load_balancing: LoadBalancingConfig::default(),
        deployment: DeploymentConfig::default(),
        backend: BackendConfig::default(),
    }
}

fn all_present() -> PathChecks {
    PathChecks { libphp_exists: true, document_root_exists: true, rules_exist: true, socket_dir_exists: true }
}

#[test]
fn clean_config_has_no_findings() {
    let mut config = base_config();
    config.php.opcache.validate_timestamps = false;
    assert!(config_findings_for(&config, &all_present(), 4).is_empty());
}

#[test]
fn privileged_port_and_too_many_workers() {
    let mut config = base_config();
    config.server.port = 80;
    config.server.workers = 9;
    let w = config_findings_for(&config, &all_present(), 4);
    assert_eq!(
        w,
        vec![
            "[!] Port 80 requires root privileges. Consider using a port >= 1024".to_string(),
            "[!] Worker count (9) is more than 2x CPU cores (4). This may cause performance degradation.".to_string(),
        ]
    );
}

#[test]
fn zero_workers_is_noted() {
    let mut config = base_config();
    config.server.workers = 0;
    let w = config_findings_for(&config, &all_present(), 2);
    assert_eq!(w, vec!["[!] Worker count is 0. It will default to CPU count.".to_string()]);
}

#[test]
fn missing_files_are_errors() {
    let config = base_config();
    let checks = PathChecks { libphp_exists: false, document_root_exists: false, rules_exist: true, socket_dir_exists: true };
    let w = config_findings_for(&config, &checks, 4);
    assert_eq!(
        w,
        vec![
            "[X] libphp.so not found at: /usr/lib/libphp.so".to_string(),
            "[X] Document root not found: /var/www".to_string(),
        ]
    );
}

#[test]
fn hybrid_mode_without_backends() {
    let mut config = base_config();
    config.backend.enable_hybrid = true;
    config.backend.static_files.enable = false;
    config.php.fpm_socket = String::new();
    let checks = PathChecks { libphp_exists: false, document_root_exists: true, rules_exist: true, socket_dir_exists: true };
    let w = config_findings_for(&config, &checks, 4);
    assert_eq!(w.len(), 3);
    assert_eq!(
        w[2],
        "[X] Hybrid mode enabled but no backends available. Configure at least one: libphp_path, fpm_socket, or static_files"
    );
}

#[test]
fn log_level_and_format_checks() {
    let mut config = base_config();
    config.logging.level = "verbose".to_string();
    config.logging.format = "xml".to_string();
    let w = config_findings_for(&config, &all_present(), 4);
    assert_eq!(
        w,
        vec![
            "[X] Invalid log level: verbose. Must be one of: trace, debug, info, warn, error".to_string(),
            "[X] Invalid log format: xml. Must be 'json' or 'pretty'".to_string(),
        ]
    );
    config.logging.level = "debug".to_string();
    config.logging.format = "pretty".to_string();
    let w = config_findings_for(&config, &all_present(), 4);
    assert_eq!(w, vec!["[*] Recommendation: Use 'info' or 'warn' log level in production".to_string()]);
}

#[test]
fn waf_on_with_mode_off() {
    let mut config = base_config();
    config.waf.enable = true;
    config.waf.mode = WafMode::Off;
    config.waf.rate_limit.requests_per_ip = 0;
    let w = config_findings_for(&config, &all_present(), 4);
    assert_eq!(
        w,
        vec![
            "[!] Rate limit is 0. Rate limiting will be disabled.".to_string(),
            "[*] WAF is enabled but mode is 'off'. Consider using 'learn', 'detect', or 'block'".to_string(),
        ]
    );
}

#[test]
fn admin_port_clashes_and_socket_dir() {
    let mut config = base_config();
    config.admin.enable = true;
    config.admin.http_port = 8080;
    config.metrics.port = 8080;
    let checks = PathChecks { libphp_exists: true, document_root_exists: true, rules_exist: true, socket_dir_exists: false };
    let w = config_findings_for(&config, &checks, 4);
    assert_eq!(
        w,
        vec![
            "[!] Unix socket directory does not exist: /var/run".to_string(),
            "[X] Admin port conflicts with server port".to_string(),
            "[X] Admin port conflicts with metrics port".to_string(),
            "[X] Metrics port conflicts with server port".to_string(),
        ]
    );
}

#[test]
fn validate_never_fails() {
    let config = base_config();
    assert!(validate_config(&config, &all_present()).is_ok());
    assert!(config.validate(&all_present()).is_ok());
}

#[test]
fn waf_mode_names() {
    assert_eq!(WafMode::from_str("BLOCK").unwrap(), WafMode::Block);
    assert!(WafMode::from_str("strict").is_err());
}
