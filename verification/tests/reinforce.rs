use hypergraph_synergy::audit::ModuleStatus;
use hypergraph_synergy::coordinator::HypergraphCoordinator;
use hypergraph_synergy::reinforce::{ConfigReinforcement, HypergraphConfig};

#[test]
fn default_tuning_values() {
    let cfg = HypergraphConfig::default();
    assert_eq!(cfg.max_module_errors, 20);
    assert_eq!(cfg.synergy_threshold_micro, 600_000);
    assert_eq!(cfg.audit_interval_seconds, 300);
    assert!(cfg.enable_auto_healing);
    assert_eq!(cfg.connection_strength_decay_micro, 950_000);
}

#[test]
fn auto_healing_reconnects_disconnected_modules() {
    let mut coordinator = HypergraphCoordinator::new();
    coordinator.register_module("Y");
    coordinator.register_module("Z");
    coordinator.establish_connection("Y", "Z", 700_000);
    coordinator.register_module("W");
    coordinator.register_module("config");
    let reinforcement = ConfigReinforcement::new_at(HypergraphConfig::default(), 0);
    let actions = reinforcement.apply_auto_healing(&mut coordinator);
    assert!(actions.iter().any(|s| s == "Reconnected disconnected module 'W'"));
    assert_eq!(coordinator.connection_strength("W", "config"), Some(500_000));
    assert_eq!(coordinator.connection_strength("config", "W"), Some(500_000));
    let audits = coordinator.audit_core_modules();
    let w = audits.iter().find(|a| a.module_name == "W").unwrap();
    assert_eq!(w.hypergraph_connections, 1);
    assert!(!matches!(w.status, ModuleStatus::Disconnected));
    // Healing touched nothing else: the existing edge and the healthy
    // modules' connection sets are as they were.
    assert_eq!(coordinator.connection_strength("Y", "Z"), Some(700_000));
    let y = coordinator.records.iter().find(|r| r.name == "Y").unwrap();
    assert_eq!(y.active_connections.len(), 1);
}

#[test]
fn auto_healing_disabled_does_nothing() {
    let mut coordinator = HypergraphCoordinator::new();
    coordinator.register_module("W");
    let mut cfg = HypergraphConfig::default();
    cfg.enable_auto_healing = false;
    let reinforcement = ConfigReinforcement::new_at(cfg, 0);
    let actions = reinforcement.apply_auto_healing(&mut coordinator);
    assert!(actions.is_empty());
    assert!(coordinator.audit_history.is_empty());
    let w = coordinator.records.iter().find(|r| r.name == "W").unwrap();
    assert!(w.active_connections.is_empty());
}

#[test]
fn validation_without_a_due_audit_reports_the_fixed_lines() {
    let mut coordinator = HypergraphCoordinator::new();
    coordinator.register_module("a");
    coordinator.register_module("b");
    coordinator.establish_connection("a", "b", 900_000);
    // The coefficient is 0.5 * 1 + 0.5 * 0.9 = 0.95, above the 0.6 floor.
    let mut reinforcement = ConfigReinforcement::new_at(HypergraphConfig::default(), 1_000_000);
    // 100 seconds since the last audit: under the 300-second interval.
    let recs = reinforcement.validate_configurations_at(&mut coordinator, 1_100_000, 1_100_002);
    assert_eq!(
        recs,
        vec![
            "Configuration paths validated successfully".to_string(),
            "Connection health assessment completed".to_string(),
        ]
    );
    assert_eq!(reinforcement.last_audit_ms, 1_000_000);
    assert!(coordinator.audit_history.is_empty());
    assert_eq!(coordinator.get_performance_metrics().total_operations, 2);
}

#[test]
fn validation_with_a_due_audit_reports_low_synergy() {
    let mut coordinator = HypergraphCoordinator::new();
    coordinator.register_module("alone");
    coordinator.register_module("adrift");
    // Two modules, no edges: each scores 0, under both thresholds.
    let mut reinforcement = ConfigReinforcement::new_at(HypergraphConfig::default(), 0);
    let recs = reinforcement.validate_configurations_at(&mut coordinator, 300_000, 300_001);
    assert_eq!(
        recs,
        vec![
            "Module 'alone' has low synergy score (0.00). Consider reviewing connections."
                .to_string(),
            "Module 'adrift' has low synergy score (0.00). Consider reviewing connections."
                .to_string(),
            "Configuration paths validated successfully".to_string(),
            "System synergy coefficient (0.00) below threshold (0.60). Review module connections."
                .to_string(),
            "Connection health assessment completed".to_string(),
        ]
    );
    assert_eq!(reinforcement.last_audit_ms, 300_000);
    assert_eq!(coordinator.audit_history.len(), 2);
}

#[test]
fn validation_flags_critical_modules_in_the_scheduled_audit() {
    let mut coordinator = HypergraphCoordinator::new();
    coordinator.register_module("sick");
    for _ in 0..11 {
        coordinator.record_error("sick", "boom");
    }
    let mut reinforcement = ConfigReinforcement::new_at(HypergraphConfig::default(), 0);
    let recs = reinforcement.validate_configurations_at(&mut coordinator, 600_000, 600_001);
    assert!(recs
        .iter()
        .any(|s| s == "Module 'sick' is in critical state. Immediate attention required."));
}

#[test]
fn validation_flags_a_high_error_rate() {
    let mut coordinator = HypergraphCoordinator::new();
    coordinator.register_module("busy");
    // Push the operation counter past ten times the error ceiling of 20.
    for _ in 0..205 {
        coordinator.record_activity("busy", "embedding", 1);
    }
    let mut reinforcement = ConfigReinforcement::new_at(HypergraphConfig::default(), 100);
    // Not due: only the threshold lines appear beside the fixed ones.
    let recs = reinforcement.validate_configurations_at(&mut coordinator, 200, 201);
    // 206 operations after the opening activity: the rate reads 20.6.
    assert!(recs
        .iter()
        .any(|s| s == "High error rate detected (20.6). Consider implementing circuit breakers."));
}

#[test]
fn validation_records_two_activities_on_the_config_module() {
    let mut coordinator = HypergraphCoordinator::new();
    coordinator.register_module("config");
    let mut reinforcement = ConfigReinforcement::new_at(HypergraphConfig::default(), 1_000);
    reinforcement.validate_configurations_at(&mut coordinator, 2_000, 2_005);
    let config = coordinator.records.iter().find(|r| r.name == "config").unwrap();
    assert_eq!(config.message_count, 2);
    assert_eq!(coordinator.get_performance_metrics().total_operations, 2);
}
