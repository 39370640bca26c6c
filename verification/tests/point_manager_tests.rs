use comsrv::combase::optimized_point_manager::OptimizedPointManager;
use comsrv::combase::point_manager::{UniversalPointConfig, UniversalPointManager};
use comsrv::combase::telemetry::TelemetryType;
use comsrv::error::ComSrvError;

fn create_test_config() -> UniversalPointConfig {
    UniversalPointConfig::new(1001, "Test Temperature", TelemetryType::Telemetry)
}

fn generate_points(count: usize) -> Vec<UniversalPointConfig> {
    let mut points = Vec::new();
    for i in 0..count {
        let telemetry_type = match i % 4 {
            0 => TelemetryType::Telemetry,
            1 => TelemetryType::Signaling,
            2 => TelemetryType::Control,
            _ => TelemetryType::Setpoint,
        };
        let point_id = 1000 + i as u32;
        let name = format!("Point_{:04}", point_id);
        let mut config = UniversalPointConfig::new(point_id, &name, telemetry_type);
        if i % 10 == 0 {
            config.enabled = false;
        }
        config.description = Some(format!("Test point for {:?}", telemetry_type));
        points.push(config);
    }
    points
}

#[test]
fn test_point_manager_creation() {
    let manager = UniversalPointManager::new("test_channel".to_string());
    assert_eq!(manager.channel_id(), "test_channel");

    let stats = manager.get_stats();
    assert_eq!(stats.total_points, 0);
}

#[test]
fn test_load_points() {
    let mut manager = UniversalPointManager::new("test_channel".to_string());
    let configs = vec![create_test_config()];

    manager.load_points(configs).unwrap();

    let stats = manager.get_stats();
    assert_eq!(stats.total_points, 1);
    assert_eq!(stats.enabled_points, 1);

    let config = manager.get_point_config("1001");
    assert!(config.is_some());
}

#[test]
fn test_points_by_type() {
    let mut manager = UniversalPointManager::new("test_channel".to_string());
    let configs = vec![create_test_config()];

    manager.load_points(configs).unwrap();

    let telemetry_points = manager.get_points_by_type(&TelemetryType::Telemetry);
    assert_eq!(telemetry_points.len(), 1);
    assert_eq!(telemetry_points[0], "1001");
}

#[test]
fn test_point_value_update() {
    let mut manager = UniversalPointManager::new("test_channel".to_string());
    let configs = vec![create_test_config()];

    manager.load_points(configs).unwrap();

    manager.update_point_value("1001", format!("{}", 25.5 * 1.0 + 0.0)).unwrap();

    let point_data = manager.get_point_data("1001");
    assert!(point_data.is_some());

    let data = point_data.unwrap();
    assert_eq!(data.value, "25.5");
}

#[test]
fn manager_update_records_point_details_and_counts_reads() {
    let mut manager = UniversalPointManager::new("ch".to_string());
    let mut config = create_test_config();
    config.description = Some("Inlet".to_string());
    manager.load_points(vec![config]).unwrap();
    manager.update_point_value("1001", "7".to_string()).unwrap();
    let data = manager.get_point_data("1001").unwrap();
    assert_eq!(data.id, "1001");
    assert_eq!(data.name, "Test Temperature");
    assert_eq!(data.unit, "°C");
    assert_eq!(data.description, "Inlet");
    assert_eq!(manager.get_stats().read_operations, 1);
    assert_eq!(manager.get_all_point_data().len(), 1);
    assert_eq!(manager.get_point_data_by_type(&TelemetryType::Telemetry).len(), 1);
    assert_eq!(manager.get_point_data_by_type(&TelemetryType::Control).len(), 0);
    manager.clear_cache();
    assert!(manager.get_point_data("1001").is_none());
}

#[test]
fn manager_update_rejects_unknown_and_disabled_points() {
    let mut manager = UniversalPointManager::new("ch".to_string());
    let mut off = UniversalPointConfig::new(2, "Pump", TelemetryType::Signaling);
    off.enabled = false;
    manager.load_points(vec![create_test_config(), off]).unwrap();
    match manager.update_point_value("9", "1".to_string()) {
        Err(ComSrvError::NotFound(m)) => assert_eq!(m, "Point not found: 9"),
        other => panic!("unexpected {:?}", other),
    }
    match manager.update_point_value("2", "1".to_string()) {
        Err(ComSrvError::InvalidOperation(m)) => assert_eq!(m, "Point 2 is disabled"),
        other => panic!("unexpected {:?}", other),
    }
    assert_eq!(manager.get_stats().read_operations, 0);
    assert!(manager.get_point_data("2").is_none());
}

#[test]
fn manager_load_replaces_repeated_numbers_and_stops_on_invalid() {
    let mut manager = UniversalPointManager::new("ch".to_string());
    let first = UniversalPointConfig::new(5, "Valve", TelemetryType::Control);
    let mut second = UniversalPointConfig::new(5, "Valve B", TelemetryType::Control);
    second.enabled = false;
    manager.load_points(vec![first, second]).unwrap();
    let stats = manager.get_stats();
    assert_eq!(stats.total_points, 1);
    assert_eq!(stats.enabled_points, 1);
    assert_eq!(stats.control_points, 2);
    assert_eq!(manager.get_point_config("5").unwrap().get_name(), "Valve B");
    assert_eq!(manager.get_points_by_type(&TelemetryType::Control), vec!["5", "5"]);
    assert!(manager.get_enabled_points_by_type(&TelemetryType::Control).is_empty());
    assert!(!manager.is_point_enabled("5"));

    let bad = UniversalPointConfig::new(0, "Broken", TelemetryType::Telemetry);
    match manager.load_points(vec![create_test_config(), bad]) {
        Err(ComSrvError::InvalidParameter(m)) => assert_eq!(m, "Point ID cannot be 0"),
        other => panic!("unexpected {:?}", other),
    }
    assert!(manager.get_point_config("1001").is_some());
    assert!(manager.get_point_config("5").is_none());
    assert_eq!(manager.get_stats().total_points, 1);
    assert_eq!(manager.get_stats().control_points, 2);
}

#[test]
fn manager_remove_point_and_access_checks() {
    let mut manager = UniversalPointManager::new("ch".to_string());
    let breaker = UniversalPointConfig::new(7, "Breaker", TelemetryType::Control);
    manager.load_points(vec![create_test_config(), breaker]).unwrap();
    assert!(manager.is_point_readable("1001"));
    assert!(!manager.is_point_writable("1001"));
    assert!(manager.is_point_writable("7"));
    assert!(manager.validate_point_value("7").is_ok());
    match manager.validate_point_value("1001") {
        Err(ComSrvError::InvalidOperation(m)) => assert_eq!(m, "Point 1001 is not writable"),
        other => panic!("unexpected {:?}", other),
    }
    match manager.validate_point_value("007") {
        Err(ComSrvError::NotFound(m)) => assert_eq!(m, "Point not found: 007"),
        other => panic!("unexpected {:?}", other),
    }
    manager.update_point_value("7", "true".to_string()).unwrap();
    manager.remove_point("7").unwrap();
    assert!(manager.get_point_config("7").is_none());
    assert!(manager.get_point_data("7").is_none());
    assert!(manager.get_points_by_type(&TelemetryType::Control).is_empty());
    match manager.remove_point("7") {
        Err(ComSrvError::NotFound(m)) => assert_eq!(m, "Point not found: 7"),
        other => panic!("unexpected {:?}", other),
    }
    assert_eq!(manager.get_all_point_configs().len(), 1);
}

#[test]
fn test_optimized_point_manager() {
    let mut manager = OptimizedPointManager::new("test_channel".to_string());

    let points = generate_points(1000);

    manager.load_points(points).unwrap();

    let stats = manager.get_stats();
    assert_eq!(stats.total_points, 1000);
    assert_eq!(stats.enabled_points, 900);

    assert!(manager.is_point_enabled(1005));
    assert!(manager.is_point_readable(1005));

    let updates: Vec<(u32, String)> = (1000..1010u32).map(|id| (id, format!("{}", 100.0 + id as f64))).collect();

    manager.batch_update_values(updates).unwrap();

    let data = manager.get_point_data(1005);
    assert!(data.is_some());
}

#[test]
fn optimized_batch_skips_disabled_and_counts_writes() {
    let mut manager = OptimizedPointManager::new("ch".to_string());
    manager.load_points(generate_points(20)).unwrap();
    let updates: Vec<(u32, String)> = vec![(1000, "a".to_string()), (1001, "b".to_string()), (5000, "c".to_string())];
    manager.batch_update_values(updates).unwrap();
    assert_eq!(manager.get_stats().write_operations, 1);
    assert!(manager.get_point_data(1000).is_none());
    let data = manager.get_point_data(1001).unwrap();
    assert_eq!(data.value, "b");
    assert_eq!(data.id, "1001");
    assert_eq!(data.name, "Point_1001");
    assert_eq!(data.description, "Test point for Signaling");
    let stats = manager.get_stats();
    assert_eq!(stats.cache_misses, 1);
    assert_eq!(stats.cache_hits, 1);
}

#[test]
fn optimized_lookups_by_number_text_and_name() {
    let mut manager = OptimizedPointManager::new("ch".to_string());
    manager.load_points(generate_points(8)).unwrap();
    assert_eq!(manager.get_point_config(1003).unwrap().point_id, 1003);
    assert_eq!(manager.get_point_config_by_string("1004").unwrap().point_id, 1004);
    assert_eq!(manager.get_point_config_by_string("+1004").unwrap().point_id, 1004);
    assert!(manager.get_point_config_by_string("abc").is_none());
    assert!(manager.get_point_config_by_string("99").is_none());
    assert_eq!(manager.get_point_config_by_name("Point_1006").unwrap().point_id, 1006);
    assert!(manager.get_point_config_by_name("Point_9999").is_none());
    let mut control = manager.get_points_by_type(&TelemetryType::Control);
    control.sort();
    assert_eq!(control, vec![1002, 1006]);
    let mut telemetry = manager.get_enabled_points_by_type(&TelemetryType::Telemetry);
    telemetry.sort();
    assert_eq!(telemetry, vec![1004]);
    assert_eq!(manager.get_all_point_configs().len(), 8);
    let stats = manager.get_stats();
    assert_eq!(stats.telemetry_points, 2);
    assert_eq!(stats.enabled_points, 7);
}

#[test]
fn optimized_update_errors_and_clear_all() {
    let mut manager = OptimizedPointManager::new("ch".to_string());
    manager.load_points(generate_points(4)).unwrap();
    match manager.update_point_value(1000, "x".to_string()) {
        Err(ComSrvError::InvalidOperation(m)) => assert_eq!(m, "Point 1000 is disabled"),
        other => panic!("unexpected {:?}", other),
    }
    match manager.update_point_value(77, "x".to_string()) {
        Err(ComSrvError::InvalidOperation(m)) => assert_eq!(m, "Point 77 is disabled"),
        other => panic!("unexpected {:?}", other),
    }
    manager.update_point_value(1002, "on".to_string()).unwrap();
    assert_eq!(manager.get_stats().write_operations, 1);
    assert_eq!(manager.get_point_data_by_type(&TelemetryType::Control).len(), 1);
    assert_eq!(manager.get_all_point_data().len(), 1);
    assert!(manager.get_memory_usage() > 0);
    manager.clear_all();
    assert_eq!(manager.get_stats().total_points, 0);
    assert!(manager.get_point_config(1002).is_none());
    assert!(!manager.is_point_enabled(1002));
    assert!(manager.get_all_point_data().is_empty());
}

#[test]
fn loading_distinct_points_counts_each_once() {
    let mut manager = OptimizedPointManager::new("counts".to_string());
    manager.load_points(generate_points(10)).unwrap();
    let stats = manager.get_stats();
    assert_eq!(stats.total_points, 10);
    assert_eq!(stats.enabled_points, 9);
    assert_eq!(
        stats.telemetry_points + stats.signaling_points + stats.control_points + stats.setpoint_points,
        stats.total_points
    );
    assert_eq!(stats.telemetry_points, 3);
    assert_eq!(stats.setpoint_points, 2);
}
