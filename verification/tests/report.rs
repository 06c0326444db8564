use hypergraph_synergy::coordinator::HypergraphCoordinator;
use hypergraph_synergy::num::{pct_string, tenth_string, u64_to_dec, unit2_string};

#[test]
fn test_health_report_generation() {
    let mut coordinator = HypergraphCoordinator::new();
    coordinator.register_module("test_module");
    coordinator.record_activity("test_module", "llm_completion", 100);
    let report = coordinator.generate_health_report();
    assert!(!report.is_empty());
    assert!(report.contains("Hypergraph Synergy Report"));
    assert!(report.contains("Performance Metrics"));
    assert!(report.contains("test_module"));
}

#[test]
fn report_carries_counts_and_details() {
    let mut coordinator = HypergraphCoordinator::new();
    coordinator.register_module("lonely");
    let report = coordinator.generate_health_report();
    assert!(report.contains("  Disconnected: 1\n"));
    assert!(report.contains("  Healthy: 0\n"));
    assert!(report.contains("[disconnected] lonely (synergy: 100.00%, connections: 0)\n"));
    assert!(report.contains("  issue: Module appears disconnected\n"));
    assert!(report.contains("  recommendation: Establish connections with related modules\n"));
}

#[test]
fn report_run_feeds_the_audit_history() {
    let mut coordinator = HypergraphCoordinator::new();
    coordinator.register_module("m");
    coordinator.generate_health_report();
    coordinator.generate_health_report();
    assert_eq!(coordinator.audit_history.len(), 2);
}

#[test]
fn history_truncates_after_a_thousand_records() {
    let mut coordinator = HypergraphCoordinator::new();
    coordinator.register_module("m");
    for _ in 0..1001 {
        coordinator.audit_core_modules();
    }
    assert_eq!(coordinator.audit_history.len(), 501);
}

#[test]
fn history_stays_within_its_bound() {
    let mut coordinator = HypergraphCoordinator::new();
    coordinator.register_module("a");
    coordinator.register_module("b");
    coordinator.register_module("c");
    for _ in 0..700 {
        coordinator.audit_core_modules();
    }
    assert!(coordinator.audit_history.len() <= 1000);
}

#[test]
fn decimal_rendering_matches_the_usual_notation() {
    assert_eq!(u64_to_dec(0), "0");
    assert_eq!(u64_to_dec(7), "7");
    assert_eq!(u64_to_dec(1234), "1234");
    assert_eq!(u64_to_dec(18_446_744_073_709_551_615), "18446744073709551615");
    assert_eq!(pct_string(900_000), "90.00");
    assert_eq!(pct_string(1_000_000), "100.00");
    assert_eq!(pct_string(123_456), "12.34");
    assert_eq!(unit2_string(750_000), "0.75");
    assert_eq!(unit2_string(1_230_000), "1.23");
    assert_eq!(tenth_string(206), "20.6");
    assert_eq!(tenth_string(5), "0.5");
}
