use comsrv::combase::data_types::ChannelStatus;
use comsrv::combase::point_manager::UniversalPointConfig;
use comsrv::combase::service::{ComBaseImpl, DefaultProtocol};
use comsrv::combase::telemetry::TelemetryType;
use comsrv::error::ComSrvError;

#[test]
fn default_protocol_test_combase_impl_creation() {
    let service = DefaultProtocol::new("Test Service", "test_protocol", 1);
    assert_eq!(service.name(), "Test Service");
    assert_eq!(service.protocol_type(), "test_protocol");
    assert_eq!(service.channel_id(), "1");
    assert!(!service.is_running());
}

#[test]
fn default_protocol_test_combase_impl_lifecycle() {
    let mut service = DefaultProtocol::new("Test Service", "test_protocol", 1);
    service.start().unwrap();
    assert!(service.is_running());
    assert!(service.status().connected);
    service.stop().unwrap();
    assert!(!service.is_running());
    assert!(!service.status().connected);
}

#[test]
fn default_protocol_error_and_parameters() {
    let mut service = DefaultProtocol::new("Svc", "virtual", 42);
    service.set_error("link down");
    assert_eq!(service.status().last_error, "link down");
    assert_eq!(service.status().id, "42");
    let params = service.get_parameters();
    assert_eq!(params.get("name"), Some(&"Svc".to_string()));
    assert_eq!(params.get("protocol"), Some(&"virtual".to_string()));
    assert_eq!(params.get("channel_id"), Some(&"42".to_string()));
    assert_eq!(params.len(), 3);
    // a start clears the error
    service.start().unwrap();
    assert_eq!(service.status().last_error, "");
    let diagnostics = service.get_diagnostics();
    assert_eq!(diagnostics.get("running"), Some(&"true".to_string()));
    assert_eq!(diagnostics.get("connected"), Some(&"true".to_string()));
    assert_eq!(diagnostics.get("service_name"), Some(&"Svc".to_string()));
    assert_eq!(diagnostics.len(), 5);
}

#[test]
fn default_protocol_points_unsupported() {
    let mut service = DefaultProtocol::new("Svc", "virtual", 1);
    assert!(service.get_all_points().is_empty());
    match service.read_point("p") {
        Err(ComSrvError::InvalidOperation(m)) => {
            assert_eq!(m, "Base implementation does not support point reading")
        }
        _ => panic!("expected an invalid operation"),
    }
    match service.write_point("p", "1") {
        Err(ComSrvError::InvalidOperation(m)) => {
            assert_eq!(m, "Base implementation does not support point writing")
        }
        _ => panic!("expected an invalid operation"),
    }
    let replaced = ChannelStatus::new("other");
    service.update_status(replaced).unwrap();
    assert_eq!(service.status().id, "other");
}

#[test]
fn test_combase_impl_creation_with_point_manager() {
    let service = ComBaseImpl::new_with_point_manager("Test Service", "test_protocol", 1);
    assert_eq!(service.name(), "Test Service");
    assert_eq!(service.protocol_type(), "test_protocol");
    assert_eq!(service.channel_id(), "1");
    assert!(!service.is_running());
    assert!(service.has_point_manager());
    let point_manager = service.get_point_manager_ref();
    assert!(point_manager.is_some());
    let manager = point_manager.unwrap();
    assert_eq!(manager.channel_id(), "1");
}

#[test]
fn test_combase_impl_creation_without_point_manager() {
    let service = ComBaseImpl::new("Test Service", "test_protocol", 1);
    assert_eq!(service.name(), "Test Service");
    assert!(!service.has_point_manager());
    let all_points = service.get_all_points();
    assert!(all_points.is_empty());
    let point_result = service.read_point("test_point");
    assert!(point_result.is_err());
}

#[test]
fn test_load_point_configs() {
    let mut service = ComBaseImpl::new_with_point_manager("Test Service", "test_protocol", 1);
    let point_configs = vec![
        UniversalPointConfig::new(1001, "Temperature", TelemetryType::Telemetry),
        UniversalPointConfig::new(1002, "Pressure", TelemetryType::Telemetry),
    ];
    let result = service.load_point_configs(point_configs);
    assert!(result.is_ok());
    let all_configs = service.get_all_point_configs();
    assert_eq!(all_configs.len(), 2);
    let stats = service.get_point_manager_ref().unwrap().get_stats();
    assert_eq!(stats.total_points, 2);
    assert_eq!(stats.enabled_points, 2);
}

#[test]
fn test_get_points_by_telemetry_type() {
    let mut service = ComBaseImpl::new_with_point_manager("Test Service", "test_protocol", 1);
    let point_configs = vec![
        UniversalPointConfig::new(1001, "Temperature", TelemetryType::Telemetry),
        UniversalPointConfig::new(2001, "Pump Control", TelemetryType::Control),
    ];
    service.load_point_configs(point_configs).unwrap();
    let telemetry_points = service.get_points_by_telemetry_type(&TelemetryType::Telemetry);
    assert!(telemetry_points.is_empty());
    let enabled_telemetry = service.get_enabled_points_by_type(&TelemetryType::Telemetry);
    assert_eq!(enabled_telemetry.len(), 1);
    assert_eq!(enabled_telemetry[0], "1001");
    let enabled_control = service.get_enabled_points_by_type(&TelemetryType::Control);
    assert_eq!(enabled_control.len(), 1);
    assert_eq!(enabled_control[0], "2001");
}

#[test]
fn test_diagnostics_with_point_manager() {
    let service = ComBaseImpl::new_with_point_manager("Test Service", "test_protocol", 1);
    let diagnostics = service.get_diagnostics();
    assert_eq!(diagnostics.get("has_point_manager"), Some(&"true".to_string()));
    assert_eq!(diagnostics.get("total_points"), Some(&"0".to_string()));
    assert_eq!(diagnostics.get("enabled_points"), Some(&"0".to_string()));
}

#[test]
fn test_unified_data_access_interface() {
    let mut service = ComBaseImpl::new_with_point_manager("Unified Test Service", "unified_protocol", 1);
    let point_configs = vec![
        UniversalPointConfig::new(1001, "Temperature Sensor", TelemetryType::Telemetry),
        UniversalPointConfig::new(1002, "Pressure Sensor", TelemetryType::Telemetry),
        UniversalPointConfig::new(2001, "Pump Status", TelemetryType::Signaling),
        UniversalPointConfig::new(2002, "Valve Status", TelemetryType::Signaling),
        UniversalPointConfig::new(3001, "Pump Control", TelemetryType::Control),
        UniversalPointConfig::new(4001, "Setpoint Adjust", TelemetryType::Setpoint),
    ];
    service.load_point_configs(point_configs).unwrap();
    let all_configs = service.get_all_point_configs();
    assert_eq!(all_configs.len(), 6);
    let telemetry_points = service.get_enabled_points_by_type(&TelemetryType::Telemetry);
    assert_eq!(telemetry_points.len(), 2);
    assert!(telemetry_points.contains(&"1001".to_string()));
    assert!(telemetry_points.contains(&"1002".to_string()));
    let signaling_points = service.get_enabled_points_by_type(&TelemetryType::Signaling);
    assert_eq!(signaling_points.len(), 2);
    let control_points = service.get_enabled_points_by_type(&TelemetryType::Control);
    assert_eq!(control_points.len(), 1);
    assert_eq!(control_points[0], "3001");
    let setpoint_points = service.get_enabled_points_by_type(&TelemetryType::Setpoint);
    assert_eq!(setpoint_points.len(), 1);
    assert_eq!(setpoint_points[0], "4001");
    let diagnostics = service.get_diagnostics();
    assert_eq!(diagnostics.get("total_points"), Some(&"6".to_string()));
    assert_eq!(diagnostics.get("enabled_points"), Some(&"6".to_string()));
    assert!(service.has_point_manager());
    let manager = service.get_point_manager_ref().unwrap();
    let stats = manager.get_stats();
    assert_eq!(stats.total_points, 6);
    assert_eq!(stats.enabled_points, 6);
    assert_eq!(stats.telemetry_points, 2);
    assert_eq!(stats.signaling_points, 2);
    assert_eq!(stats.control_points, 1);
    assert_eq!(stats.setpoint_points, 1);
}

#[test]
fn test_legacy_protocol_compatibility() {
    let mut service = ComBaseImpl::new("Legacy Protocol", "legacy", 1);
    assert!(!service.has_point_manager());
    assert!(service.get_all_points().is_empty());
    assert!(service.get_all_point_configs().is_empty());
    assert!(service.get_enabled_points_by_type(&TelemetryType::Telemetry).is_empty());
    assert!(service.get_points_by_telemetry_type(&TelemetryType::Telemetry).is_empty());
    assert!(service.read_point("any_point").is_err());
    let load_result = service.load_point_configs(vec![]);
    assert!(load_result.is_err());
}

#[test]
fn combase_read_point_after_update() {
    let mut service = ComBaseImpl::new_with_point_manager("Svc", "virtual", 7);
    service
        .load_point_configs(vec![UniversalPointConfig::new(1001, "Temperature", TelemetryType::Telemetry)])
        .unwrap();
    match service.read_point("1001") {
        Err(ComSrvError::NotFound(m)) => assert_eq!(m, "Point not found: 1001"),
        _ => panic!("expected not found"),
    }
    match ComBaseImpl::new("Svc", "virtual", 7).read_point("1001") {
        Err(ComSrvError::InvalidOperation(m)) => {
            assert_eq!(m, "No point manager available for point reading")
        }
        _ => panic!("expected an invalid operation"),
    }
    let params = service.get_parameters();
    assert_eq!(params.get("has_point_manager"), Some(&"true".to_string()));
    assert_eq!(params.get("point_manager_channel"), Some(&"7".to_string()));
    let diagnostics = service.get_diagnostics();
    assert_eq!(diagnostics.get("read_operations"), Some(&"0".to_string()));
    assert_eq!(diagnostics.get("validation_errors"), Some(&"0".to_string()));
    let plain = ComBaseImpl::new("Svc", "virtual", 7);
    assert_eq!(plain.get_parameters().get("has_point_manager"), Some(&"false".to_string()));
    assert_eq!(plain.get_diagnostics().get("total_points"), None);
    let mut writable = plain;
    match writable.write_point("1001", "1") {
        Err(ComSrvError::InvalidOperation(m)) => assert_eq!(
            m,
            "Base implementation does not support point writing - protocols should override this method"
        ),
        _ => panic!("expected an invalid operation"),
    }
}

#[test]
fn combase_update_status_sets_and_clears_errors() {
    let mut service = ComBaseImpl::new("TestService", "TestProtocol", 1);
    service.update_status(true, 123.45f64.to_bits(), None);
    assert!(service.status().connected);
    assert_eq!(f64::from_bits(service.status().last_response_time_bits), 123.45);
    assert!(!service.status().has_error());
    service.update_status(false, 0.0f64.to_bits(), Some("Connection failed"));
    assert!(!service.status().connected);
    assert!(service.status().has_error());
    assert_eq!(service.status().last_error, "Connection failed");
    // no error clears the stored one
    service.set_error("Test error message");
    service.update_status(true, 10.0f64.to_bits(), None);
    assert!(service.status().connected);
    assert_eq!(f64::from_bits(service.status().last_response_time_bits), 10.0);
    assert!(service.status().last_error.is_empty());
    assert!(!service.status().has_error());
}
