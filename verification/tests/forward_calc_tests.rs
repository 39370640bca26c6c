use comsrv::combase::forward_calc::{
    CalculationOperation, ForwardCalculationConfig, ForwardCalculationEngine, ForwardCalculationManager,
    SourcePointConfig, SourceValue, TargetPointConfig,
};
use comsrv::combase::stats::BaseCommStats;
use comsrv::combase::telemetry::TelemetryType;
use comsrv::error::ComSrvError;

fn sum_config(id: &str, sources: &[&str]) -> ForwardCalculationConfig {
    let source_points = sources.iter().map(|p| SourcePointConfig::new(p, p)).collect();
    ForwardCalculationConfig::new(
        id,
        "total",
        source_points,
        TargetPointConfig::new("total", "Total", TelemetryType::Telemetry),
        CalculationOperation::Sum,
    )
}

#[test]
fn test_base_comm_stats_creation() {
    let stats = BaseCommStats::new();
    assert_eq!(stats.total_requests, 0);
    assert_eq!(stats.successful_requests, 0);
    assert_eq!(stats.failed_requests, 0);
    assert_eq!(stats.timeout_errors, 0);
}

#[test]
fn test_error_counters() {
    let mut stats = BaseCommStats::new();
    stats.increment_error_counter("crc_error");
    stats.increment_error_counter("crc_error");
    stats.increment_error_counter("protocol_error");
    assert_eq!(stats.get_error_count("crc_error"), 2);
    assert_eq!(stats.get_error_count("protocol_error"), 1);
    assert_eq!(stats.get_error_count("unknown_error"), 0);
}

#[test]
fn record_request_counts_success_and_timeout() {
    let mut stats = BaseCommStats::new();
    stats.record_request(true, None);
    assert_eq!(stats.total_requests, 1);
    assert_eq!(stats.successful_requests, 1);
    assert!(stats.last_successful_communication.is_some());
    stats.record_request(false, Some("timeout"));
    stats.record_request(false, Some("crc_error"));
    stats.record_request(false, None);
    assert_eq!(stats.total_requests, 4);
    assert_eq!(stats.failed_requests, 3);
    assert_eq!(stats.timeout_errors, 1);
    assert_eq!(stats.get_error_count("timeout"), 1);
    assert_eq!(stats.get_error_count("crc_error"), 1);
    assert_eq!(stats.avg_response_time_bits, 0);
    stats.reset();
    assert_eq!(stats.total_requests, 0);
    assert_eq!(stats.get_error_count("timeout"), 0);
}

#[test]
fn load_calculations_checks_each_config() {
    let mut engine = ForwardCalculationEngine::new("ch1".to_string());
    assert_eq!(engine.channel_id(), "ch1");
    let ok = engine.load_calculations(vec![sum_config("c1", &["a"]), sum_config("c2", &["b"])]);
    assert!(ok.is_ok());
    assert_eq!(engine.calculation_ids().len(), 2);
    assert!(engine.get_calculation_config("c1").is_some());
    // the third configuration has no sources: the load stops there, keeping the first
    let err = engine.load_calculations(vec![sum_config("c3", &["a"]), sum_config("", &["a"]), sum_config("c4", &[])]);
    match err {
        Err(ComSrvError::InvalidParameter(m)) => assert_eq!(m, "Calculation ID cannot be empty"),
        _ => panic!("expected an invalid parameter"),
    }
    assert_eq!(engine.calculation_ids(), vec!["c3".to_string()]);
    assert!(engine.get_calculation_config("c1").is_none());
    match engine.load_calculations(vec![sum_config("c5", &[])]) {
        Err(ComSrvError::InvalidParameter(m)) => assert_eq!(m, "At least one source point is required"),
        _ => panic!("expected an invalid parameter"),
    }
}

#[test]
fn calculation_inputs_pick_sources() {
    let mut engine = ForwardCalculationEngine::new("ch1".to_string());
    let mut optional = SourcePointConfig::new("opt", "opt");
    optional.required = false;
    let mut defaulted = SourcePointConfig::new("dflt", "dflt");
    defaulted.default_value_bits = Some(5);
    let mut scaled = SourcePointConfig::new("a", "a");
    scaled.scale_factor_bits = Some(9);
    let config = ForwardCalculationConfig::new(
        "c1",
        "mix",
        vec![scaled, optional, defaulted],
        TargetPointConfig::new("out", "Out", TelemetryType::Telemetry),
        CalculationOperation::Add,
    );
    engine.load_calculations(vec![config]).unwrap();
    engine.update_point_value("a", 42);
    let (op, values) = engine.calculation_inputs("c1").unwrap().unwrap();
    assert_eq!(op, CalculationOperation::Add);
    assert_eq!(
        values,
        vec![
            SourceValue::Measured { raw_bits: 42, scale_factor_bits: Some(9), offset_bits: None },
            SourceValue::Default { value_bits: 5 },
        ]
    );
    match engine.calculation_inputs("missing") {
        Err(ComSrvError::NotFound(m)) => assert_eq!(m, "Calculation not found: missing"),
        _ => panic!("expected not found"),
    }
}

#[test]
fn calculation_inputs_errors() {
    let mut engine = ForwardCalculationEngine::new("ch1".to_string());
    let subtract = ForwardCalculationConfig::new(
        "diff",
        "diff",
        vec![SourcePointConfig::new("a", "a")],
        TargetPointConfig::new("out", "Out", TelemetryType::Telemetry),
        CalculationOperation::Subtract,
    );
    let mut disabled = sum_config("off", &["a"]);
    disabled.enabled = false;
    engine.load_calculations(vec![subtract, sum_config("needs_b", &["a", "b"]), disabled]).unwrap();
    match engine.calculation_inputs("needs_b") {
        Err(ComSrvError::PointNotFound(m)) => assert_eq!(m, "Required source point a not available"),
        _ => panic!("expected a missing point"),
    }
    engine.update_point_value("a", 1);
    match engine.calculation_inputs("needs_b") {
        Err(ComSrvError::PointNotFound(m)) => assert_eq!(m, "Required source point b not available"),
        _ => panic!("expected a missing point"),
    }
    match engine.calculation_inputs("diff") {
        Err(ComSrvError::InvalidOperation(m)) => assert_eq!(m, "Subtract operation requires at least 2 values"),
        _ => panic!("expected too few operands"),
    }
    assert!(engine.calculation_inputs("off").unwrap().is_none());
}

#[test]
fn manager_keeps_one_engine_per_channel() {
    let mut manager = ForwardCalculationManager::new();
    assert!(manager.get_active_channels().is_empty());
    manager.get_engine("ch1").update_point_value("a", 3);
    manager.get_engine("ch2");
    let engine = manager.get_engine("ch1");
    assert_eq!(engine.channel_id(), "ch1");
    engine.load_calculations(vec![sum_config("c1", &["a"])]).unwrap();
    let (_, values) = manager.get_engine("ch1").calculation_inputs("c1").unwrap().unwrap();
    assert_eq!(values, vec![SourceValue::Measured { raw_bits: 3, scale_factor_bits: None, offset_bits: None }]);
    let mut channels = manager.get_active_channels();
    channels.sort();
    assert_eq!(channels, vec!["ch1".to_string(), "ch2".to_string()]);
}
