use fe_php::config::{AbTestConfig, CanaryConfig, DeploymentConfig, DeploymentStrategy, VariantConfig};
use fe_php::deployment::ab_test::AbTestManager;
use fe_php::deployment::canary::{CanaryAction, CanaryDeploymentManager, CanaryPhase, ErrorRateCheck};
use fe_php::deployment::traffic_splitter::TrafficSplitter;
use fe_php::deployment::DeploymentManager;

fn variant(name: &str, weight: u32, upstream: &str) -> VariantConfig {
    VariantConfig { name: name.to_string(), weight, upstream: upstream.to_string(), metrics_tracking: true }
}

#[test]
fn test_traffic_splitter_weighted_distribution() {
    let variants = vec![variant("v1", 70, "http://v1:8080"), variant("v2", 30, "http://v2:8080")];
    let mut splitter = TrafficSplitter::new(variants, false).unwrap();
    let mut v1_count = 0;
    let mut v2_count = 0;
    for _ in 0..1000 {
        let variant = splitter.select_variant(None, None);
        if variant.name == "v1" {
            v1_count += 1;
        } else if variant.name == "v2" {
            v2_count += 1;
        }
    }
    assert!(v1_count > 600 && v1_count < 800);
    assert!(v2_count > 200 && v2_count < 400);
}

#[test]
fn weighted_split_is_exact_over_full_rounds() {
    let variants = vec![variant("v1", 70, "a"), variant("v2", 30, "b")];
    let mut splitter = TrafficSplitter::new(variants, false).unwrap();
    let mut v1 = 0;
    for _ in 0..1000 {
        if splitter.select_variant(None, None).name == "v1" {
            v1 += 1;
        }
    }
    assert_eq!(v1, 700);
}

#[test]
fn zero_total_weight_is_refused() {
    let variants = vec![variant("a", 0, "x"), variant("b", 0, "y")];
    match TrafficSplitter::new(variants, false) {
        Err(e) => assert_eq!(e.message, "Total weight of variants must be greater than 0"),
        Ok(_) => panic!("expected an error"),
    }
}

#[test]
fn sticky_sessions_keep_a_user_on_one_variant() {
    let variants = vec![variant("a", 1, "x"), variant("b", 1, "y")];
    let mut splitter = TrafficSplitter::new(variants, true).unwrap();
    let first = splitter.select_variant(Some("alice"), None).name.clone();
    for _ in 0..5 {
        assert_eq!(splitter.select_variant(Some("alice"), None).name, first);
    }
    let by_ip = splitter.select_variant(None, Some("10.0.0.1")).name.clone();
    assert_eq!(splitter.select_variant(None, Some("10.0.0.1")).name, by_ip);
    assert_eq!(splitter.sticky_session_count(), 2);
    splitter.clear_sticky_sessions();
    assert_eq!(splitter.sticky_session_count(), 0);
}

#[test]
fn update_weights_changes_the_split() {
    let variants = vec![variant("a", 50, "x"), variant("b", 50, "y")];
    let mut splitter = TrafficSplitter::new(variants, false).unwrap();
    splitter.update_weights(&vec![("a".to_string(), 0), ("b".to_string(), 10)]);
    assert_eq!(splitter.get_weights(), vec![("a".to_string(), 0), ("b".to_string(), 10)]);
    for _ in 0..20 {
        assert_eq!(splitter.select_variant(None, None).name, "b");
    }
}

#[test]
fn ab_test_counts_and_average() {
    let variants = vec![variant("a", 1, "x"), variant("b", 1, "y")];
    let config = AbTestConfig { track_conversion: true, min_requests_per_variant: 2 };
    let mut ab = AbTestManager::new(variants, config).unwrap();
    ab.record_request("a", true, 100);
    ab.record_request("a", false, 200);
    ab.record_request("zzz", true, 5);
    let c = ab.counts()[0];
    assert_eq!(c.total_requests, 2);
    assert_eq!(c.successful_requests, 1);
    assert_eq!(c.failed_requests, 1);
    assert_eq!(c.avg_response_time_ms, 150);
    assert_eq!(c.conversions, 1);
    assert!(!ab.has_sufficient_data());
    ab.record_request("b", true, 10);
    ab.record_request("b", true, 10);
    assert!(ab.has_sufficient_data());
    ab.reset();
    assert_eq!(ab.counts()[0].total_requests, 0);
    assert!(!ab.has_sufficient_data());
}

#[test]
fn ab_test_running_average_rounds_down() {
    let variants = vec![variant("a", 1, "x")];
    let config = AbTestConfig { track_conversion: false, min_requests_per_variant: 1 };
    let mut ab = AbTestManager::new(variants, config).unwrap();
    ab.record_request("a", true, 10);
    ab.record_request("a", true, 11);
    ab.record_request("a", true, 13);
    // (10) -> (10*1+11)/2 = 10 -> (10*2+13)/3 = 11
    assert_eq!(ab.counts()[0].avg_response_time_ms, 11);
    assert_eq!(ab.counts()[0].conversions, 0);
}

fn canary_config() -> CanaryConfig {
    CanaryConfig {
        max_error_rate_bits: 0.05f64.to_bits(),
        max_response_time_ms: Some(500),
        min_observation_period_secs: 60,
        min_requests_before_decision: 2,
    }
}

#[test]
fn canary_needs_exactly_two_variants() {
    match CanaryDeploymentManager::new(vec![variant("stable", 100, "a")], canary_config()) {
        Err(e) => assert_eq!(e.message, "Canary deployment requires exactly 2 variants (stable and canary)"),
        Ok(_) => panic!("expected an error"),
    }
}

#[test]
fn canary_promotes_through_every_phase() {
    let variants = vec![variant("stable", 100, "a"), variant("canary", 0, "b")];
    let mut m = CanaryDeploymentManager::new(variants, canary_config()).unwrap();
    assert_eq!(m.check_and_update(10, ErrorRateCheck::Within).unwrap(), CanaryAction::Waiting);
    let expected = [(95, 5, CanaryPhase::Phase5), (75, 25, CanaryPhase::Phase25), (50, 50, CanaryPhase::Phase50), (0, 100, CanaryPhase::Completed)];
    for (stable, canary, phase) in expected.iter() {
        m.record_request("canary", true, 10);
        m.record_request("canary", true, 10);
        assert_eq!(m.check_and_update(60, ErrorRateCheck::Within).unwrap(), CanaryAction::Promoted);
        assert_eq!(m.current_phase(), *phase);
        assert_eq!(m.variants()[0].weight, *stable);
        assert_eq!(m.variants()[1].weight, *canary);
        assert_eq!(m.stats_for("canary").unwrap().total_requests, 0);
    }
    assert_eq!(m.current_phase().name(), "Completed");
}

#[test]
fn canary_rolls_back_on_errors_or_slowness() {
    let variants = vec![variant("stable", 100, "a"), variant("new-build", 0, "b")];
    let mut m = CanaryDeploymentManager::new(variants, canary_config()).unwrap();
    m.record_request("new-build", false, 10);
    assert_eq!(m.check_and_update(60, ErrorRateCheck::Above).unwrap(), CanaryAction::Unchanged);
    m.record_request("new-build", true, 2000);
    assert_eq!(m.check_and_update(60, ErrorRateCheck::Within).unwrap(), CanaryAction::RolledBack);
    assert_eq!(m.current_phase(), CanaryPhase::RolledBack);
    assert_eq!(m.variants()[0].weight, 100);
    assert_eq!(m.variants()[1].weight, 0);
}

#[test]
fn canary_without_canary_variant_errors() {
    let variants = vec![variant("blue", 100, "a"), variant("green", 0, "b")];
    let mut m = CanaryDeploymentManager::new(variants, canary_config()).unwrap();
    match m.check_and_update(120, ErrorRateCheck::Within) {
        Err(e) => assert_eq!(e.message, "Canary variant not found"),
        Ok(_) => panic!("expected an error"),
    }
}

#[test]
fn deployment_manager_by_strategy() {
    let mut config = DeploymentConfig::default();
    config.variants = vec![variant("stable", 90, "a"), variant("canary", 10, "b")];
    config.strategy = DeploymentStrategy::Canary;
    let mut m = DeploymentManager::new(&config).unwrap();
    assert!(m.canary().is_some());
    assert!(m.ab_test().is_none());
    m.record_request("canary", true, 3);
    assert_eq!(m.canary().unwrap().stats_for("canary").unwrap().total_requests, 1);
    let _ = m.select_variant(None, None);
    config.strategy = DeploymentStrategy::AbTest;
    let m = DeploymentManager::new(&config).unwrap();
    assert!(m.ab_test().is_some());
    assert!(m.canary().is_none());
}

#[test]
fn sticky_assignment_survives_other_users_and_new_weights() {
    let variants = vec![variant("a", 1, "x"), variant("b", 3, "y")];
    let mut splitter = TrafficSplitter::new(variants, true).unwrap();
    let first = splitter.select_variant(Some("alice"), None).name.clone();
    for u in ["bob", "carol", "dave", "erin"] {
        splitter.select_variant(Some(u), None);
    }
    splitter.select_variant(None, None);
    splitter.update_weights(&vec![("a".to_string(), 9), ("b".to_string(), 1)]);
    for _ in 0..4 {
        assert_eq!(splitter.select_variant(Some("alice"), Some("10.9.9.9")).name, first);
    }
    splitter.select_variant(Some("bob"), None);
    assert_eq!(splitter.sticky_session_count(), 5);
}

#[test]
fn reset_ab_test_behaves_as_a_fresh_one() {
    let config = AbTestConfig { track_conversion: true, min_requests_per_variant: 1 };
    let variants = vec![variant("a", 1, "x"), variant("b", 1, "y"), variant("a", 2, "z")];
    let mut used = AbTestManager::new(variants.clone(), config).unwrap();
    used.record_request("a", true, 40);
    used.record_request("b", false, 90);
    used.record_request("a", false, 10);
    used.reset();
    let mut fresh = AbTestManager::new(variants, config).unwrap();
    for (name, ok, ms) in [("b", true, 20u64), ("a", true, 30), ("c", false, 5), ("b", false, 70)] {
        used.record_request(name, ok, ms);
        fresh.record_request(name, ok, ms);
    }
    assert_eq!(used.names(), fresh.names());
    assert_eq!(used.counts().len(), 2);
    for i in 0..2 {
        let (u, f) = (used.counts()[i], fresh.counts()[i]);
        assert_eq!(u.total_requests, f.total_requests);
        assert_eq!(u.successful_requests, f.successful_requests);
        assert_eq!(u.failed_requests, f.failed_requests);
        assert_eq!(u.avg_response_time_ms, f.avg_response_time_ms);
        assert_eq!(u.conversions, f.conversions);
    }
    assert_eq!(used.counts()[1].total_requests, 2);
}
