use hypergraph_synergy::audit::ModuleStatus;
use hypergraph_synergy::coordinator::init_hypergraph_coordinator;
use hypergraph_synergy::coordinator::HypergraphCoordinator;

#[test]
fn test_hypergraph_coordinator_initialization() {
    let coordinator = HypergraphCoordinator::new();
    assert!(coordinator.records.is_empty());
    assert!(coordinator.matrix.is_empty());
}

#[test]
fn test_module_registration() {
    let mut coordinator = HypergraphCoordinator::new();
    coordinator.register_module("test_client");
    coordinator.register_module("test_config");
    coordinator.register_module("test_rag");
    assert_eq!(coordinator.records.len(), 3);
    assert!(coordinator.records.iter().any(|r| r.name == "test_client"));
    assert!(coordinator.records.iter().any(|r| r.name == "test_config"));
    assert!(coordinator.records.iter().any(|r| r.name == "test_rag"));
}

#[test]
fn test_connection_establishment() {
    let mut coordinator = HypergraphCoordinator::new();
    coordinator.register_module("module_a");
    coordinator.register_module("module_b");
    coordinator.establish_connection("module_a", "module_b", 800_000);
    let a = coordinator.records.iter().find(|r| r.name == "module_a").unwrap();
    let b = coordinator.records.iter().find(|r| r.name == "module_b").unwrap();
    assert!(a.active_connections.iter().any(|n| n == "module_b"));
    assert!(b.active_connections.iter().any(|n| n == "module_a"));
    assert_eq!(coordinator.connection_strength("module_a", "module_b"), Some(800_000));
    assert_eq!(coordinator.connection_strength("module_b", "module_a"), Some(800_000));
}

#[test]
fn test_activity_recording() {
    let mut coordinator = HypergraphCoordinator::new();
    coordinator.register_module("test_module");
    coordinator.record_activity("test_module", "llm_completion", 100);
    coordinator.record_activity("test_module", "embedding", 50);
    let m = coordinator.records.iter().find(|r| r.name == "test_module").unwrap();
    assert_eq!(m.message_count, 2);
    assert!(m.cognitive_load_micro > 0);
}

#[test]
fn test_error_recording() {
    let mut coordinator = HypergraphCoordinator::new();
    coordinator.register_module("test_module");
    coordinator.record_error("test_module", "Test error 1");
    coordinator.record_error("test_module", "Test error 2");
    let m = coordinator.records.iter().find(|r| r.name == "test_module").unwrap();
    assert_eq!(m.error_count, 2);
}

#[test]
fn test_core_module_audit() {
    let mut coordinator = HypergraphCoordinator::new();
    coordinator.register_module("healthy_module");
    coordinator.register_module("warning_module");
    coordinator.register_module("disconnected_module");
    coordinator.establish_connection("healthy_module", "warning_module", 900_000);
    coordinator.record_activity("healthy_module", "llm_completion", 50);
    coordinator.record_activity("warning_module", "embedding", 200);
    for i in 0..5 {
        coordinator.record_error("warning_module", &format!("Warning error {}", i));
    }
    let audits = coordinator.audit_core_modules();
    assert_eq!(audits.len(), 3);
    let healthy = audits.iter().find(|a| a.module_name == "healthy_module").unwrap();
    let warning = audits.iter().find(|a| a.module_name == "warning_module").unwrap();
    let disconnected = audits.iter().find(|a| a.module_name == "disconnected_module").unwrap();
    // One connection of two possible peers at strength 0.9 scores
    // 0.5 * 0.5 + 0.5 * 0.9 = 0.7, so both connected modules are healthy.
    assert!(matches!(healthy.status, ModuleStatus::Healthy));
    assert_eq!(warning.synergy_score_micro, 700_000);
    assert!(matches!(warning.status, ModuleStatus::Healthy));
    assert!(matches!(disconnected.status, ModuleStatus::Disconnected));
    assert!(healthy.synergy_score_micro > 0);
    assert_eq!(disconnected.hypergraph_connections, 0);
}

#[test]
fn test_performance_metrics() {
    let mut coordinator = HypergraphCoordinator::new();
    coordinator.register_module("module1");
    coordinator.register_module("module2");
    coordinator.establish_connection("module1", "module2", 800_000);
    coordinator.record_activity("module1", "llm_completion", 100);
    coordinator.record_activity("module2", "embedding", 50);
    let metrics = coordinator.get_performance_metrics();
    assert!(metrics.total_operations > 0);
    assert!(metrics.synergy_coefficient_micro > 0);
    assert!(metrics.memory_efficiency_micro > 0);
}

#[test]
fn test_global_functions() {
    let mut coordinator = init_hypergraph_coordinator();
    coordinator.register_module("global_test_module");
    coordinator.establish_connection("global_test_module", "global_test_module", 500_000);
    coordinator.record_activity("global_test_module", "test_operation", 10);
    coordinator.record_error("global_test_module", "test error");
    let audits = coordinator.audit_core_modules();
    assert!(!audits.is_empty());
    let report = coordinator.generate_health_report();
    assert!(!report.is_empty());
}

#[test]
fn empty_world_audit_and_metrics() {
    let mut coordinator = init_hypergraph_coordinator();
    let audits = coordinator.audit_core_modules();
    assert!(audits.is_empty());
    let metrics = coordinator.get_performance_metrics();
    assert_eq!(metrics.total_operations, 0);
    assert_eq!(metrics.synergy_coefficient_micro, 0);
    assert_eq!(metrics.memory_efficiency_micro, 1_000_000);
}

#[test]
fn two_healthy_modules_scenario() {
    let mut coordinator = HypergraphCoordinator::new();
    coordinator.register_module("A");
    coordinator.register_module("B");
    coordinator.establish_connection("A", "B", 800_000);
    coordinator.record_activity("A", "llm_completion", 100);
    coordinator.record_activity("B", "embedding", 50);
    let audits = coordinator.audit_core_modules();
    assert_eq!(audits.len(), 2);
    for audit in &audits {
        assert!(matches!(audit.status, ModuleStatus::Healthy));
        assert_eq!(audit.synergy_score_micro, 900_000);
    }
    let metrics = coordinator.get_performance_metrics();
    assert_eq!(metrics.total_operations, 2);
    assert_eq!(metrics.synergy_coefficient_micro, 900_000);
}

#[test]
fn critical_module_scenario() {
    let mut coordinator = HypergraphCoordinator::new();
    coordinator.register_module("X");
    for i in 0..11 {
        coordinator.record_error("X", &format!("failure {}", i));
    }
    let audits = coordinator.audit_core_modules();
    assert_eq!(audits.len(), 1);
    assert!(matches!(audits[0].status, ModuleStatus::Critical));
    assert!(audits[0].issues.iter().any(|s| s == "High error count detected"));
}

#[test]
fn disconnected_module_scenario() {
    let mut coordinator = HypergraphCoordinator::new();
    coordinator.register_module("Y");
    coordinator.register_module("Z");
    coordinator.establish_connection("Y", "Z", 700_000);
    coordinator.register_module("W");
    let audits = coordinator.audit_core_modules();
    let w = audits.iter().find(|a| a.module_name == "W").unwrap();
    assert!(matches!(w.status, ModuleStatus::Disconnected));
    assert_eq!(w.hypergraph_connections, 0);
    assert!(w.issues.iter().any(|s| s == "Module appears disconnected"));
}

#[test]
fn unknown_name_activity_updates_only_globals() {
    let mut coordinator = HypergraphCoordinator::new();
    coordinator.register_module("known");
    coordinator.record_activity("unknown", "llm_completion", 100);
    assert_eq!(coordinator.records.len(), 1);
    assert_eq!(coordinator.records[0].message_count, 0);
    assert_eq!(coordinator.get_performance_metrics().total_operations, 1);
}

#[test]
fn eleven_errors_beat_disconnection() {
    let mut coordinator = HypergraphCoordinator::new();
    coordinator.register_module("isolated");
    for _ in 0..11 {
        coordinator.record_error("isolated", "boom");
    }
    let audits = coordinator.audit_core_modules();
    assert!(matches!(audits[0].status, ModuleStatus::Critical));
}

#[test]
fn ten_errors_are_not_critical() {
    let mut coordinator = HypergraphCoordinator::new();
    coordinator.register_module("isolated");
    for _ in 0..10 {
        coordinator.record_error("isolated", "boom");
    }
    let audits = coordinator.audit_core_modules();
    assert!(!matches!(audits[0].status, ModuleStatus::Critical));
    assert!(matches!(audits[0].status, ModuleStatus::Disconnected));
}

#[test]
fn full_graph_scores_mean_of_unit_and_strength() {
    let mut coordinator = HypergraphCoordinator::new();
    coordinator.register_module("a");
    coordinator.register_module("b");
    coordinator.register_module("c");
    coordinator.establish_connection("a", "b", 500_000);
    coordinator.establish_connection("a", "c", 500_000);
    coordinator.establish_connection("b", "c", 500_000);
    let audits = coordinator.audit_core_modules();
    for audit in &audits {
        assert_eq!(audit.synergy_score_micro, 750_000);
    }
}

#[test]
fn single_module_scores_a_full_unit() {
    let mut coordinator = HypergraphCoordinator::new();
    coordinator.register_module("only");
    assert_eq!(coordinator.calculate_synergy_score("only"), 1_000_000);
    assert_eq!(coordinator.calculate_synergy_score("missing"), 0);
}

#[test]
fn coefficient_equals_mean_of_audit_scores() {
    let mut coordinator = HypergraphCoordinator::new();
    coordinator.register_module("a");
    coordinator.register_module("b");
    coordinator.register_module("c");
    coordinator.establish_connection("a", "b", 600_000);
    let audits = coordinator.audit_core_modules();
    let sum: u64 = audits.iter().map(|a| a.synergy_score_micro).sum();
    let mean = sum / audits.len() as u64;
    let metrics = coordinator.get_performance_metrics();
    assert_eq!(metrics.synergy_coefficient_micro, mean);
}

#[test]
fn re_registration_resets_counters_in_place() {
    let mut coordinator = HypergraphCoordinator::new();
    coordinator.register_module("first");
    coordinator.register_module("second");
    coordinator.record_activity("first", "embedding", 10);
    coordinator.record_error("first", "oops");
    coordinator.register_module("first");
    assert_eq!(coordinator.records.len(), 2);
    assert_eq!(coordinator.records[0].name, "first");
    assert_eq!(coordinator.records[0].message_count, 0);
    assert_eq!(coordinator.records[0].error_count, 0);
}

#[test]
fn cognitive_load_and_response_time_follow_the_formulas() {
    let mut coordinator = HypergraphCoordinator::new();
    coordinator.register_module("m");
    coordinator.record_activity("m", "llm_completion", 100);
    // load <- (9 * 0 + 800_000 * 100 / 1000) / 10
    assert_eq!(coordinator.records[0].cognitive_load_micro, 8_000);
    // avg <- (9 * 0 + 100 * 1_000_000) / 10 micro-milliseconds
    let metrics = coordinator.get_performance_metrics();
    assert_eq!(metrics.average_response_micro_ms, 10_000_000);
    coordinator.record_activity("m", "embedding", 50);
    // load <- (9 * 8_000 + 500_000 * 50 / 1000) / 10
    assert_eq!(coordinator.records[0].cognitive_load_micro, 9_700);
}

#[test]
fn strength_out_of_unit_range_is_accepted() {
    let mut coordinator = HypergraphCoordinator::new();
    coordinator.register_module("a");
    coordinator.register_module("b");
    coordinator.establish_connection("a", "b", 2_000_000);
    assert_eq!(coordinator.connection_strength("a", "b"), Some(2_000_000));
}

#[test]
fn re_weighing_an_edge_keeps_one_entry_per_direction() {
    let mut coordinator = HypergraphCoordinator::new();
    coordinator.register_module("a");
    coordinator.register_module("b");
    coordinator.establish_connection("a", "b", 300_000);
    coordinator.establish_connection("a", "b", 900_000);
    assert_eq!(coordinator.connection_strength("a", "b"), Some(900_000));
    assert_eq!(coordinator.connection_strength("b", "a"), Some(900_000));
    assert_eq!(coordinator.matrix.len(), 2);
    let a = coordinator.records.iter().find(|r| r.name == "a").unwrap();
    assert_eq!(a.active_connections.len(), 1);
}

#[test]
fn connection_to_unregistered_peer_is_kept_one_sided() {
    let mut coordinator = HypergraphCoordinator::new();
    coordinator.register_module("a");
    coordinator.establish_connection("a", "ghost", 400_000);
    let a = coordinator.records.iter().find(|r| r.name == "a").unwrap();
    assert!(a.active_connections.iter().any(|n| n == "ghost"));
    assert_eq!(coordinator.records.len(), 1);
    assert_eq!(coordinator.connection_strength("a", "ghost"), Some(400_000));
}

#[test]
fn counters_never_decrease_over_a_mixed_sequence() {
    let mut coordinator = HypergraphCoordinator::new();
    coordinator.register_module("steady");
    let mut last_messages = 0;
    let mut last_errors = 0;
    for step in 0..20 {
        if step % 3 == 0 {
            coordinator.record_activity("steady", "rag_query", 5);
        } else if step % 3 == 1 {
            coordinator.record_error("steady", "transient fault");
        } else {
            coordinator.register_module("newcomer");
        }
        let steady = coordinator.records.iter().find(|r| r.name == "steady").unwrap();
        assert!(steady.message_count >= last_messages);
        assert!(steady.error_count >= last_errors);
        last_messages = steady.message_count;
        last_errors = steady.error_count;
    }
    assert_eq!(last_messages, 7);
    assert_eq!(last_errors, 7);
}
