use fe_php::config::{CircuitBreakerConfig, UpstreamConfig};
use fe_php::load_balancing::breaker::{CircuitState, SimpleCircuitBreaker};
use fe_php::load_balancing::{hash_address, parse_algorithm, LoadBalancingAlgorithm, LoadBalancingManager};

fn upstream(name: &str, weight: u32, enabled: bool) -> UpstreamConfig {
    UpstreamConfig { name: name.to_string(), url: format!("http://{}", name), weight, enabled }
}

fn breaker_config() -> CircuitBreakerConfig {
    CircuitBreakerConfig {
        enable: true,
        failure_threshold: 3,
        success_threshold: 2,
        timeout_seconds: 10,
        half_open_max_requests: 3,
    }
}

#[test]
fn test_round_robin_selection() {}

#[test]
fn round_robin_cycles_over_healthy_servers() {
    let ups = vec![upstream("a", 1, true), upstream("b", 1, false), upstream("c", 1, true)];
    let mut lb = LoadBalancingManager::new(ups, "round_robin", &breaker_config()).unwrap();
    let picks: Vec<usize> = (0..4).map(|_| lb.select_upstream_with(0, "").unwrap()).collect();
    assert_eq!(picks, vec![0, 2, 0, 2]);
    lb.update_health("c", false);
    assert_eq!(lb.select_upstream_with(0, "").unwrap(), 0);
    lb.update_health("a", false);
    match lb.select_upstream_with(0, "") {
        Err(e) => assert_eq!(e.message, "No healthy upstreams available"),
        Ok(_) => panic!("expected an error"),
    }
}

#[test]
fn weighted_round_robin_follows_weights() {
    let ups = vec![upstream("a", 3, true), upstream("b", 1, true)];
    let mut lb = LoadBalancingManager::new(ups, "weighted_round_robin", &breaker_config()).unwrap();
    assert!(lb.can_select());
    let picks: Vec<usize> = (0..8).map(|_| lb.select_upstream_with(0, "").unwrap()).collect();
    assert_eq!(picks, vec![0, 0, 0, 1, 0, 0, 0, 1]);
}

#[test]
fn weighted_round_robin_with_zero_weights_cannot_select() {
    let ups = vec![upstream("a", 0, true)];
    let lb = LoadBalancingManager::new(ups, "weighted_round_robin", &breaker_config()).unwrap();
    assert!(!lb.can_select());
}

#[test]
fn least_connections_and_random() {
    let ups = vec![upstream("a", 1, true), upstream("b", 1, true), upstream("c", 1, true)];
    let mut lb = LoadBalancingManager::new(ups, "least_connections", &breaker_config()).unwrap();
    assert_eq!(lb.select_upstream_with(0, "").unwrap(), 0);
    let ups = vec![upstream("a", 1, true), upstream("b", 1, true), upstream("c", 1, true)];
    let mut lb = LoadBalancingManager::new(ups, "random", &breaker_config()).unwrap();
    assert_eq!(lb.select_upstream_with(7, "").unwrap(), 1);
    assert!(lb.select_upstream().unwrap() < 3);
}

#[test]
fn unknown_algorithm_is_round_robin() {
    assert_eq!(parse_algorithm("fastest"), LoadBalancingAlgorithm::RoundRobin);
    assert_eq!(parse_algorithm("random"), LoadBalancingAlgorithm::Random);
}

#[test]
fn breaker_opens_then_half_opens_then_closes() {
    let mut b = SimpleCircuitBreaker::new(3, 2, 10);
    b.record_failure(1);
    b.record_failure(2);
    assert_eq!(b.state, CircuitState::Closed);
    b.record_success();
    assert_eq!(b.failure_count, 0);
    b.record_failure(3);
    b.record_failure(4);
    b.record_failure(5);
    assert!(b.is_open());
    b.try_reset(5 + 9_999_999_999);
    assert!(b.is_open());
    b.try_reset(5 + 10_000_000_000);
    assert_eq!(b.state, CircuitState::HalfOpen);
    b.record_success();
    assert_eq!(b.state, CircuitState::HalfOpen);
    b.record_success();
    assert_eq!(b.state, CircuitState::Closed);
}

#[test]
fn half_open_failure_reopens() {
    let mut b = SimpleCircuitBreaker::new(1, 2, 0);
    b.record_failure(7);
    assert!(b.is_open());
    b.try_reset(7);
    assert_eq!(b.state, CircuitState::HalfOpen);
    b.record_failure(8);
    assert!(b.is_open());
    assert_eq!(b.last_failure_nanos, Some(8));
}

#[test]
fn upstream_calls_through_breaker() {
    let ups = vec![upstream("a", 1, true)];
    let mut cfg = breaker_config();
    cfg.failure_threshold = 1;
    let mut lb = LoadBalancingManager::new(ups, "round_robin", &cfg).unwrap();
    assert!(lb.admit_call(0, 0).is_ok());
    lb.complete_call(0, false, 0);
    match lb.admit_call(0, 1) {
        Err(e) => assert_eq!(e.message, "Circuit breaker is open for upstream 'a'"),
        Ok(_) => panic!("expected the breaker to refuse"),
    }
    let status = lb.get_upstreams_status();
    assert_eq!(status[0].total_requests, 2);
    assert_eq!(status[0].failed_requests, 2);
}

#[test]
fn health_checks_flip_health_after_thresholds() {
    let ups = vec![upstream("a", 1, true)];
    let mut lb = LoadBalancingManager::new(ups, "round_robin", &breaker_config()).unwrap();
    lb.record_health_check(0, false, 2, 3);
    lb.record_health_check(0, false, 2, 3);
    assert!(lb.upstream(0).is_healthy());
    lb.record_health_check(0, false, 2, 3);
    assert!(!lb.upstream(0).is_healthy());
    lb.record_health_check(0, true, 2, 3);
    assert!(!lb.upstream(0).is_healthy());
    lb.record_health_check(0, true, 2, 3);
    assert!(lb.upstream(0).is_healthy());
    assert_eq!(lb.health_check_url(0, "/_health"), "http://a/_health");
}

#[test]
fn ip_hash_keeps_each_client_on_one_server() {
    assert_eq!(parse_algorithm("ip_hash"), LoadBalancingAlgorithm::IpHash);
    assert_eq!(hash_address("10.0.0.1"), 511552166);
    assert_eq!(hash_address("10.0.0.2"), 511552167);
    assert_eq!(hash_address(""), 0);
    let ups = vec![upstream("a", 1, true), upstream("b", 1, true), upstream("c", 1, true)];
    let mut lb = LoadBalancingManager::new(ups, "ip_hash", &breaker_config()).unwrap();
    for _ in 0..3 {
        assert_eq!(lb.select_upstream_for("10.0.0.1").unwrap(), 2);
        assert_eq!(lb.select_upstream_for("10.0.0.2").unwrap(), 0);
        assert_eq!(lb.select_upstream_for("192.168.1.7").unwrap(), 1);
    }
    assert_eq!(lb.select_upstream().unwrap(), 0);
    lb.update_health("b", false);
    assert_eq!(lb.select_upstream_for("10.0.0.1").unwrap(), 0);
    assert_eq!(lb.select_upstream_for("10.0.0.2").unwrap(), 2);
}
