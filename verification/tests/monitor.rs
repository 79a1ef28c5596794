use fe_php::monitor::history::{record_snapshot, HISTORY_LIMIT};
use fe_php::admin::commands::{parse_command_line, AdminError, Command, CommandLine};
use fe_php::geoip::{location_from_parts, GeoIpPolicy};
use fe_php::logging::structured::RequestLog;
use fe_php::monitor::analyzer::LogAnalyzer;
use fe_php::php::worker::WorkerLifecycle;
use fe_php::redis_session::RedisSessionKeys;

fn log(uri: &str, status: u16, duration_ms: u64, addr: &str) -> RequestLog {
    RequestLog::new("GET".to_string(), uri.to_string(), status, duration_ms, addr.to_string())
}

#[test]
fn analyzer_keeps_the_last_thousand() {
    let mut a = LogAnalyzer::new();
    for i in 0..1005u64 {
        a.add_log(log("/x", 200, i, "1.1.1.1"));
    }
    let recent = a.get_recent_logs(2000);
    assert_eq!(recent.len(), 1000);
    assert_eq!(recent[0].duration_ms, 5);
    assert_eq!(a.get_recent_logs(3)[2].duration_ms, 1004);
}

#[test]
fn analysis_totals_endpoints_and_slow_requests() {
    let mut a = LogAnalyzer::new();
    a.add_log(log("/a", 200, 150, "1.1.1.1"));
    a.add_log(log("/b", 404, 5, "1.1.1.1"));
    a.add_log(log("/b", 500, 300, "2.2.2.2"));
    a.add_log(log("/c", 200, 150, "1.1.1.1"));
    let r = a.analyze();
    assert_eq!(r.total_requests, 4);
    assert_eq!(r.error_count, 2);
    assert_eq!(r.top_endpoints[0].path, "/b");
    assert_eq!(r.top_endpoints[0].count, 2);
    assert_eq!(r.top_endpoints[0].total_duration_ms, 305);
    assert_eq!(r.top_endpoints[0].error_count, 2);
    assert_eq!(r.top_endpoints[1].path, "/a");
    assert_eq!(r.top_endpoints[2].path, "/c");
    let slow: Vec<&str> = r.slow_requests.iter().map(|l| l.uri.as_str()).collect();
    assert_eq!(slow, vec!["/b", "/a", "/c"]);
    assert!(r.suspicious_activity.is_empty());
}

#[test]
fn suspicious_clients_are_reported() {
    let mut a = LogAnalyzer::new();
    for _ in 0..11 {
        a.add_log(log("/probe", 404, 1, "6.6.6.6"));
    }
    for _ in 0..6 {
        a.add_log(log("/crash", 503, 1, "7.7.7.7"));
    }
    for _ in 0..10 {
        a.add_log(log("/probe", 404, 1, "8.8.8.8"));
    }
    let s = a.detect_suspicious_activity();
    assert_eq!(s.len(), 2);
    assert_eq!(s[0].ip_address, "6.6.6.6");
    assert_eq!(s[0].event_type, "scan");
    assert_eq!(s[0].description, "11 404 errors (possible scanning)");
    assert_eq!(s[1].ip_address, "7.7.7.7");
    assert_eq!(s[1].description, "6 server errors");
}

#[test]
fn command_lines() {
    assert!(matches!(parse_command_line("{\"command\":\"status\"}"), CommandLine::Json));
    assert!(matches!(parse_command_line("STATUS"), CommandLine::Text(Command::Status)));
    assert!(matches!(parse_command_line("blocked"), CommandLine::Text(Command::BlockedIps)));
    assert!(matches!(parse_command_line("reload now"), CommandLine::Text(Command::ReloadConfig { config_path: None })));
    match parse_command_line("Block  10.0.0.9 ") {
        CommandLine::Text(Command::BlockIp { ip }) => assert_eq!(ip, "10.0.0.9"),
        _ => panic!("expected a block command"),
    }
    match parse_command_line("unblock ::1") {
        CommandLine::Text(Command::UnblockIp { ip }) => assert_eq!(ip, "::1"),
        _ => panic!("expected an unblock command"),
    }
    match parse_command_line("Dance") {
        CommandLine::Unknown(m) => assert_eq!(m, "Unknown command: Dance"),
        _ => panic!("expected an unknown command"),
    }
}

#[test]
fn admin_error_messages() {
    assert_eq!(
        AdminError::NoCommandChannel("Worker restart not supported".to_string()).to_string(),
        "Command channel not available: Worker restart not supported"
    );
    assert_eq!(AdminError::SendError("closed".to_string()).to_string(), "Failed to send command: closed");
}

#[test]
fn country_rules() {
    let p = GeoIpPolicy::new(vec!["JP".to_string(), "US".to_string()], vec!["US".to_string()]);
    assert!(p.is_allowed(None));
    assert!(p.is_allowed(Some("JP")));
    assert!(!p.is_allowed(Some("US")));
    assert!(!p.is_allowed(Some("FR")));
    let open = GeoIpPolicy::new(vec![], vec![]);
    assert!(open.is_allowed(Some("FR")));
    assert!(location_from_parts(None, None, Some("EU".to_string())).is_none());
    assert!(location_from_parts(Some("FR".to_string()), None, None).is_some());
}

#[test]
fn worker_retires_at_its_limit() {
    let mut w = WorkerLifecycle::new(2);
    assert!(!w.request_served());
    assert!(w.request_served());
    let mut forever = WorkerLifecycle::new(0);
    for _ in 0..100 {
        assert!(!forever.request_served());
    }
}

#[test]
fn session_keys() {
    let k = RedisSessionKeys::new("sess:".to_string());
    assert_eq!(k.make_key("abc"), "sess:abc");
    assert_eq!(k.key_pattern(), "sess:*");
    let keys = vec!["sess:1".to_string(), "other:2".to_string(), "sess:".to_string()];
    assert_eq!(k.session_ids(&keys), vec!["1".to_string(), "".to_string()]);
}

#[test]
fn snapshot_history_keeps_the_latest_hundred() {
    let mut history: Vec<u32> = Vec::new();
    for i in 0..150u32 {
        record_snapshot(&mut history, i);
    }
    assert_eq!(HISTORY_LIMIT, 100);
    assert_eq!(history.len(), 100);
    assert_eq!(history[0], 50);
    assert_eq!(history[99], 149);
}
