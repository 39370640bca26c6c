use comsrv::combase::calculation::{
    calculation_status, enhanced_calculation_status, check_basic_config, check_enhanced_config, create_logic_example_configs, last_per_name, missing_sources_message,
    result_matches_target, split_sources, CalculationRegistry, ForwardCalculationConfig,
};
use comsrv::combase::{CalculationStatus, TelemetryPointId, TelemetryType};
use comsrv::error::ComSrvError;

fn pid(t: TelemetryType, n: u32) -> TelemetryPointId {
    TelemetryPointId { telemetry_type: t, point_id: n }
}

fn sample(id: &str, expression: &str) -> ForwardCalculationConfig {
    ForwardCalculationConfig::new(
        id.to_string(),
        "Sample".to_string(),
        pid(TelemetryType::Telemetry, 9),
        expression.to_string(),
        vec![("a".to_string(), pid(TelemetryType::Telemetry, 1)), ("b".to_string(), pid(TelemetryType::Signaling, 2))],
    )
}

#[test]
fn calculation_config_defaults_and_legacy_form() {
    let c = sample("c1", "a + b");
    assert!(c.enabled);
    assert_eq!(c.execution_interval_ms, 1000);
    assert_eq!(c.source_points.len(), 2);
    assert!(c.target_point_id.is_none());
    let legacy = ForwardCalculationConfig::from_legacy(
        "old".to_string(),
        "Old".to_string(),
        7,
        TelemetryType::Setpoint,
        "x * 2".to_string(),
        vec![("x".to_string(), 5), ("x".to_string(), 6)],
    );
    assert_eq!(legacy.target_point, pid(TelemetryType::Setpoint, 7));
    assert_eq!(legacy.target_point_id, Some(7));
    assert_eq!(legacy.target_telemetry_type, Some(TelemetryType::Setpoint));
    assert_eq!(legacy.source_points, vec![("x".to_string(), pid(TelemetryType::Telemetry, 6))]);
}

#[test]
fn calculation_last_pair_of_a_name_counts() {
    let pairs = vec![
        ("a".to_string(), pid(TelemetryType::Telemetry, 1)),
        ("b".to_string(), pid(TelemetryType::Telemetry, 2)),
        ("a".to_string(), pid(TelemetryType::Control, 3)),
    ];
    let r = last_per_name(pairs);
    assert_eq!(r, vec![("a".to_string(), pid(TelemetryType::Control, 3)), ("b".to_string(), pid(TelemetryType::Telemetry, 2))]);
}

#[test]
fn calculation_config_checks() {
    assert!(check_basic_config(&sample("c", "a")).is_ok());
    match check_basic_config(&sample("c", "   ")) {
        Err(ComSrvError::ConfigError(m)) => assert_eq!(m, "Expression cannot be empty"),
        other => panic!("unexpected {:?}", other),
    }
    let mut c = sample("c", "a");
    c.execution_interval_ms = 0;
    match check_basic_config(&c) {
        Err(ComSrvError::ConfigError(m)) => assert_eq!(m, "Execution interval must be greater than 0"),
        other => panic!("unexpected {:?}", other),
    }
    c.source_points.clear();
    match check_basic_config(&c) {
        Err(ComSrvError::ConfigError(m)) => assert_eq!(m, "Source points cannot be empty"),
        other => panic!("unexpected {:?}", other),
    }
    assert!(check_enhanced_config(&sample("c", "   ")).is_ok());
    match check_enhanced_config(&sample("", "a")) {
        Err(ComSrvError::ConfigError(m)) => assert_eq!(m, "Configuration ID cannot be empty"),
        other => panic!("unexpected {:?}", other),
    }
    match check_enhanced_config(&sample("c", "")) {
        Err(ComSrvError::ConfigError(m)) => assert_eq!(m, "Expression cannot be empty"),
        other => panic!("unexpected {:?}", other),
    }
}

#[test]
fn calculation_sources_split_by_available_data() {
    let c = sample("c", "a + b");
    let available = vec!["Remote Signaling:2".to_string(), "Remote Measurement:77".to_string()];
    let (present, missing) = split_sources(&c, &available);
    assert_eq!(present, vec![("b".to_string(), "Remote Signaling:2".to_string())]);
    assert_eq!(missing, vec!["a".to_string()]);
    assert_eq!(
        missing_sources_message(&vec!["a".to_string(), "c".to_string()]),
        "Missing source data for variables: a, c"
    );
    assert_eq!(missing_sources_message(&Vec::new()), "Missing source data for variables: ");
}

#[test]
fn calculation_result_kinds_and_registry() {
    assert!(result_matches_target(true, TelemetryType::Control));
    assert!(!result_matches_target(true, TelemetryType::Telemetry));
    assert!(result_matches_target(false, TelemetryType::Setpoint));
    let mut registry = CalculationRegistry::new();
    registry.insert(sample("x", "a"));
    registry.insert(sample("y", "b"));
    registry.insert(sample("x", "a * 2"));
    assert_eq!(registry.all().len(), 2);
    assert_eq!(registry.get("x").unwrap().expression, "a * 2");
    assert!(registry.remove("y"));
    assert!(!registry.remove("y"));
    assert!(registry.get("y").is_none());
}

#[test]
fn calculation_logic_examples() {
    let examples = create_logic_example_configs();
    assert_eq!(examples.len(), 5);
    assert_eq!(examples[0].id, "device_start_logic");
    assert_eq!(examples[0].expression, "switch1 AND switch2");
    assert_eq!(examples[3].source_points.len(), 4);
    assert_eq!(examples[4].target_point, pid(TelemetryType::Signaling, 2003));
}

#[test]
fn calculation_statuses() {
    assert_eq!(calculation_status(true, Some(false)), CalculationStatus::IncompleteSourceData);
    assert_eq!(calculation_status(false, None), CalculationStatus::CalculationError);
    assert_eq!(calculation_status(false, Some(true)), CalculationStatus::Success);
    assert_eq!(enhanced_calculation_status(false, Some(true), TelemetryType::Telemetry), CalculationStatus::TypeMismatch);
    assert_eq!(enhanced_calculation_status(false, Some(true), TelemetryType::Control), CalculationStatus::Success);
    assert_eq!(enhanced_calculation_status(false, None, TelemetryType::Control), CalculationStatus::ExpressionError);
    assert_eq!(enhanced_calculation_status(true, None, TelemetryType::Control), CalculationStatus::IncompleteSourceData);
}

#[test]
fn basic_check_rejects_blank_expressions() {
    let mut config = sample("c1", "   ");
    config.expression = "  \t ".to_string();
    assert!(check_basic_config(&config).is_err());
}
