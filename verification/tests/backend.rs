use fe_php::backend::router::BackendRouter;
use fe_php::backend::static_files::StaticBackend;
use fe_php::backend::{BackendError, BackendType, PathPattern};
use fe_php::config::{PathPatternConfig, RoutingRule};
use fe_php::php::executor::{confine_to_document_root, parse_fastcgi_response, parse_php_output, script_candidate};

#[derive(Debug, Clone, Copy, PartialEq)]
struct MockBackend {
    backend_type: BackendType,
}

#[test]
fn test_path_pattern_exact() {
    let pattern = PathPattern::Exact("/api/user".to_string());
    assert!(pattern.matches("/api/user"));
    assert!(!pattern.matches("/api/users"));
    assert!(!pattern.matches("/api"));
}

#[test]
fn test_path_pattern_prefix() {
    let pattern = PathPattern::Prefix("/api/*".to_string());
    assert!(pattern.matches("/api/user"));
    assert!(pattern.matches("/api/users"));
    assert!(pattern.matches("/api/"));
    assert!(!pattern.matches("/other"));
}

#[test]
fn test_path_pattern_suffix() {
    let pattern = PathPattern::Suffix("*.php".to_string());
    assert!(pattern.matches("/index.php"));
    assert!(pattern.matches("/api/user.php"));
    assert!(!pattern.matches("/index.html"));
}

#[test]
fn test_path_pattern_regex() {
    let pattern = PathPattern::regex(r"^/api/v\d+/").unwrap();
    assert!(pattern.matches("/api/v1/user"));
    assert!(pattern.matches("/api/v2/users"));
    assert!(!pattern.matches("/api/user"));
    assert!(!pattern.matches("/api/v/user"));
}

#[test]
fn path_pattern_regex_rejects_bad_syntax() {
    assert!(PathPattern::regex("(unclosed").is_err());
}

#[test]
fn test_backend_router_prefix() {
    let backends = vec![
        (BackendType::Embedded, MockBackend { backend_type: BackendType::Embedded }),
        (BackendType::Static, MockBackend { backend_type: BackendType::Static }),
    ];
    let rules = vec![RoutingRule {
        pattern: PathPatternConfig::Prefix("/static/*".to_string()),
        backend: "static".to_string(),
        priority: 100,
    }];
    let router = BackendRouter::new(backends, rules, BackendType::Embedded).unwrap();
    assert_eq!(router.route("/static/image.png").backend_type, BackendType::Static);
    assert_eq!(router.route("/api/user").backend_type, BackendType::Embedded);
}

#[test]
fn test_backend_router_priority() {
    let backends = vec![
        (BackendType::Embedded, MockBackend { backend_type: BackendType::Embedded }),
        (BackendType::FastCGI, MockBackend { backend_type: BackendType::FastCGI }),
    ];
    let rules = vec![
        RoutingRule {
            pattern: PathPatternConfig::Prefix("/api/*".to_string()),
            backend: "embedded".to_string(),
            priority: 100,
        },
        RoutingRule {
            pattern: PathPatternConfig::Prefix("/api/*".to_string()),
            backend: "fastcgi".to_string(),
            priority: 50,
        },
    ];
    let router = BackendRouter::new(backends, rules, BackendType::Embedded).unwrap();
    assert_eq!(router.route("/api/user").backend_type, BackendType::Embedded);
}

#[test]
fn router_higher_priority_wins_whatever_the_order() {
    let backends = vec![
        (BackendType::Embedded, MockBackend { backend_type: BackendType::Embedded }),
        (BackendType::FastCGI, MockBackend { backend_type: BackendType::FastCGI }),
    ];
    let rules = vec![
        RoutingRule {
            pattern: PathPatternConfig::Prefix("/api/*".to_string()),
            backend: "embedded".to_string(),
            priority: 10,
        },
        RoutingRule {
            pattern: PathPatternConfig::Suffix("*.php".to_string()),
            backend: "fastcgi".to_string(),
            priority: 90,
        },
    ];
    let router = BackendRouter::new(backends, rules, BackendType::Embedded).unwrap();
    assert_eq!(router.route_type("/api/x.php"), Some(BackendType::FastCGI));
    assert_eq!(router.route_type("/api/x"), Some(BackendType::Embedded));
}

#[test]
fn router_refuses_unknown_backend_name() {
    let backends = vec![(BackendType::Embedded, MockBackend { backend_type: BackendType::Embedded })];
    let rules = vec![RoutingRule {
        pattern: PathPatternConfig::Exact("/x".to_string()),
        backend: "nginx".to_string(),
        priority: 1,
    }];
    assert!(BackendRouter::new(backends, rules, BackendType::Embedded).is_err());
}

#[test]
fn router_missing_backend_falls_to_default() {
    let backends = vec![(BackendType::Embedded, MockBackend { backend_type: BackendType::Embedded })];
    let rules = vec![RoutingRule {
        pattern: PathPatternConfig::Prefix("/static/*".to_string()),
        backend: "static".to_string(),
        priority: 100,
    }];
    let router = BackendRouter::new(backends, rules, BackendType::Embedded).unwrap();
    assert_eq!(router.route_type("/static/a.css"), Some(BackendType::Embedded));
}

#[test]
fn backend_type_names_round_trip() {
    assert_eq!(BackendType::from_str("FastCGI").unwrap(), BackendType::FastCGI);
    assert_eq!(BackendType::Static.to_string(), "static");
    assert!(BackendType::from_str("apache").is_err());
}

#[test]
fn static_backend_mime_types() {
    let b = StaticBackend::new("/srv".to_string());
    assert_eq!(b.guess_mime_type("/a/b.css"), "text/css; charset=utf-8");
    assert_eq!(b.guess_mime_type("/a/b.png"), "image/png");
    assert_eq!(b.guess_mime_type("/a/b.PNG"), "application/octet-stream");
    assert_eq!(b.guess_mime_type("/a/noext"), "application/octet-stream");
}

#[test]
fn static_backend_only_serves_get_and_head() {
    assert!(StaticBackend::method_allowed("GET"));
    assert!(StaticBackend::method_allowed("HEAD"));
    assert!(!StaticBackend::method_allowed("POST"));
}

#[test]
fn script_candidate_appends_index_and_extension() {
    assert_eq!(script_candidate("/var/www", "/"), "/var/www/index.php");
    assert_eq!(script_candidate("/var/www", "/admin/"), "/var/www/admin/index.php");
    assert_eq!(script_candidate("/var/www", "/info?x=1"), "/var/www/info.php");
    assert_eq!(script_candidate("/var/www", "/test.php"), "/var/www/test.php");
}

#[test]
fn confinement_rejects_escape() {
    match confine_to_document_root("/etc/passwd", "/var/www") {
        Err(BackendError::Other(m)) => assert_eq!(
            m,
            "Path traversal attempt detected: '/etc/passwd' is outside document root '/var/www'"
        ),
        _ => panic!("expected a traversal error"),
    }
    assert_eq!(confine_to_document_root("/var/www/a.php", "/var/www").unwrap(), "/var/www/a.php");
}

#[test]
fn fastcgi_response_splits_status_headers_body() {
    let data = b"Status: 404 Not Found\r\nX-A: b\r\n\r\nbody";
    let (status, headers, body) = parse_fastcgi_response(data);
    assert_eq!(status, 404);
    assert_eq!(headers.get("X-A"), Some("b".to_string()));
    assert_eq!(headers.get("Content-Type"), Some("text/html; charset=UTF-8".to_string()));
    assert_eq!(body, b"body".to_vec());
}

#[test]
fn php_output_without_headers_is_all_body() {
    let (status, headers, body) = parse_php_output(b"hello");
    assert_eq!(status, 200);
    assert_eq!(headers.get("Content-Type"), Some("text/html; charset=UTF-8".to_string()));
    assert_eq!(body, b"hello".to_vec());
}
