use comsrv::combase::adapter_manager::protocol_of;
use comsrv::combase::enhanced_transport_bridge::{
    is_retriable_error, ConnectionPool, ConnectionPoolConfig, RequestPriority,
};
use comsrv::combase::forward_calc::{check_operands, validate_calculation, CalculationOperation, TargetPointConfig};
use comsrv::combase::monitoring::{
    connection_health_result, count_healthy, newest_first, push_bounded, ConnectionHealthChecker, HealthLevel,
    ResponseTimeStats,
};
use comsrv::combase::polling::group_points_for_batch_reading;
use comsrv::combase::protocol_factory::{MockComBase, ModbusRtuFactory, ModbusTcpFactory};
use comsrv::combase::stats::BaseConnectionStats;
use comsrv::combase::telemetry::TelemetryType;
use comsrv::error::ComSrvError;

#[test]
fn test_base_connection_stats_creation() {
    let stats = BaseConnectionStats::new();
    assert_eq!(stats.reconnect_attempts, 0);
    assert_eq!(stats.connected_clients, 0);
    assert_eq!(stats.total_connections, 0);
    assert_eq!(stats.connection_drops, 0);
}

#[test]
fn test_base_connection_stats_operations() {
    let mut stats = BaseConnectionStats::new();

    stats.record_connection();
    assert_eq!(stats.total_connections, 1);
    assert_eq!(stats.connected_clients, 1);
    assert!(stats.last_connection_time.is_some());

    stats.record_disconnection();
    assert_eq!(stats.connection_drops, 1);
    assert_eq!(stats.connected_clients, 0);
    assert!(stats.last_disconnection_time.is_some());

    stats.record_reconnection_attempt();
    assert_eq!(stats.reconnect_attempts, 1);
}

#[test]
fn connection_stats_never_count_below_zero_and_reset() {
    let mut stats = BaseConnectionStats::default();
    stats.record_disconnection();
    assert_eq!(stats.connected_clients, 0);
    assert_eq!(stats.connection_drops, 1);
    stats.record_connection();
    stats.record_connection();
    stats.record_disconnection();
    assert_eq!(stats.connected_clients, 1);
    stats.reset();
    assert_eq!(stats.total_connections, 0);
    assert_eq!(stats.connection_drops, 0);
    assert!(stats.last_connection_time.is_none());
}

#[test]
fn test_connection_pool() {
    let config = ConnectionPoolConfig::default();
    let pool: ConnectionPool<u8> = ConnectionPool::new(config);

    let stats = pool.get_stats();
    assert_eq!(stats.get("total_connections").unwrap(), "5");
    assert_eq!(stats.get("active_connections").unwrap(), "0");
}

#[test]
fn test_request_priority_ordering() {
    let low = RequestPriority::Low;
    let high = RequestPriority::High;
    let critical = RequestPriority::Critical;

    assert!(critical > high);
    assert!(high > low);
    assert!(critical.rank() > high.rank() && high.rank() > low.rank());
}

#[test]
fn connection_pool_hands_out_slots_in_order_and_fills_up() {
    let mut config = ConnectionPoolConfig::default();
    config.max_connections = 2;
    let mut pool: ConnectionPool<&'static str> = ConnectionPool::new(config);
    assert_eq!(pool.create_connection(|| "first").unwrap(), 0);
    assert_eq!(pool.create_connection(|| "second").unwrap(), 1);
    match pool.create_connection(|| "third") {
        Err(ComSrvError::ConnectionError(m)) => assert_eq!(m, "连接池已满"),
        other => panic!("unexpected {:?}", other.map(|_| ())),
    }
    let stats = pool.get_stats();
    assert_eq!(stats.get("active_connections").unwrap(), "2");
    assert_eq!(stats.get("available_connections").unwrap(), "0");
    assert_eq!(stats.get("max_connections").unwrap(), "2");
    pool.release_connection(1);
    pool.release_connection(1);
    pool.release_connection(7);
    assert_eq!(pool.get_stats().get("available_connections").unwrap(), "1");
    assert_eq!(pool.acquire_connection(), Some(1));
    assert_eq!(pool.acquire_connection(), None);
}

#[test]
fn retriable_errors() {
    assert!(is_retriable_error(&ComSrvError::TimeoutError("t".to_string())));
    assert!(is_retriable_error(&ComSrvError::NetworkError("n".to_string())));
    assert!(is_retriable_error(&ComSrvError::ConnectionError("c".to_string())));
    assert!(!is_retriable_error(&ComSrvError::ConfigError("x".to_string())));
}

#[test]
fn health_level_names_and_connection_checks() {
    assert_eq!(HealthLevel::Healthy.to_string(), "healthy");
    assert_eq!(HealthLevel::Critical.to_string(), "critical");
    assert_eq!(HealthLevel::Unknown.to_string(), "unknown");
    let checker = ConnectionHealthChecker::new("test_connection".to_string(), || true);
    let result = checker.check_health();
    assert_eq!(result.level, HealthLevel::Healthy);
    assert_eq!(result.component, "test_connection");
    assert_eq!(result.details.get("connected"), Some(&"true".to_string()));
    assert_eq!(checker.name(), "test_connection");
    let down = ConnectionHealthChecker::new("link".to_string(), || false);
    let result = down.check_health();
    assert_eq!(result.level, HealthLevel::Critical);
    assert_eq!(result.message, "连接断开");
    let direct = connection_health_result("x".to_string(), true, std::time::SystemTime::now(), 3);
    assert_eq!(direct.message, "连接正常");
    assert_eq!(direct.check_duration_ms, 3);
}

#[test]
fn forward_calculation_checks() {
    let target = TargetPointConfig::new("3001", "Sum", TelemetryType::Telemetry);
    assert_eq!(target.point_id, "3001");
    assert!(target.unit.is_none());
    match validate_calculation("", 2) {
        Err(ComSrvError::InvalidParameter(m)) => assert_eq!(m, "Calculation ID cannot be empty"),
        other => panic!("unexpected {:?}", other),
    }
    match validate_calculation("calc", 0) {
        Err(ComSrvError::InvalidParameter(m)) => assert_eq!(m, "At least one source point is required"),
        other => panic!("unexpected {:?}", other),
    }
    assert!(validate_calculation("calc", 1).is_ok());
    match check_operands(CalculationOperation::Divide, 1) {
        Err(ComSrvError::InvalidOperation(m)) => assert_eq!(m, "Divide operation requires at least 2 values"),
        other => panic!("unexpected {:?}", other),
    }
    assert!(check_operands(CalculationOperation::Sum, 0).is_ok());
    assert!(check_operands(CalculationOperation::Add, 2).is_ok());
}

#[test]
fn polling_groups_points_by_name() {
    let names = vec!["a".to_string(), "".to_string(), "b".to_string(), "a".to_string(), "default".to_string()];
    let groups = group_points_for_batch_reading(&names);
    assert_eq!(groups.len(), 3);
    assert_eq!(groups[0], ("a".to_string(), vec![0, 3]));
    assert_eq!(groups[1], ("default".to_string(), vec![1, 4]));
    assert_eq!(groups[2], ("b".to_string(), vec![2]));
    assert!(group_points_for_batch_reading(&vec![]).is_empty());
}

#[test]
fn modbus_factories_check_required_parameters() {
    let tcp = ModbusTcpFactory;
    assert!(tcp.validate_config(&vec!["host".to_string(), "port".to_string()]).is_ok());
    assert!(tcp.validate_config(&vec!["address".to_string()]).is_ok());
    match tcp.validate_config(&vec!["port".to_string()]) {
        Err(ComSrvError::InvalidParameter(m)) => {
            assert_eq!(m, "host parameter is required (or legacy address parameter)")
        }
        other => panic!("unexpected {:?}", other),
    }
    let rtu = ModbusRtuFactory;
    assert!(rtu.validate_config(&vec!["port".to_string()]).is_ok());
    assert!(rtu.validate_config(&vec!["ModbusRtu".to_string()]).is_ok());
    match rtu.validate_config(&vec![]) {
        Err(ComSrvError::InvalidParameter(m)) => assert_eq!(m, "port parameter is required"),
        other => panic!("unexpected {:?}", other),
    }
}

#[test]
fn point_keys_name_their_protocol() {
    assert_eq!(protocol_of("modbus:pump_speed"), "modbus");
    assert_eq!(protocol_of("iec104:a:b"), "iec104");
    assert_eq!(protocol_of("plain"), "plain");
    assert_eq!(protocol_of(""), "");
}

#[test]
fn bounded_log_drops_the_oldest_entry() {
    let mut log = vec![1, 2, 3];
    push_bounded(&mut log, 4, 3);
    assert_eq!(log, vec![2, 3, 4]);
    push_bounded(&mut log, 5, 10);
    assert_eq!(log, vec![2, 3, 4, 5]);
    let mut empty: Vec<u8> = Vec::new();
    push_bounded(&mut empty, 9, 0);
    assert!(empty.is_empty());
}

#[test]
fn newest_entries_come_first() {
    let log = vec!["a", "b", "c", "d"];
    let recent: Vec<&str> = newest_first(&log, 2).into_iter().copied().collect();
    assert_eq!(recent, vec!["d", "c"]);
    assert_eq!(newest_first(&log, 10).len(), 4);
    assert!(newest_first(&log, 0).is_empty());
}

#[test]
fn healthy_results_are_counted() {
    let now = std::time::SystemTime::now();
    let results = vec![
        connection_health_result("a".to_string(), true, now, 1),
        connection_health_result("b".to_string(), false, now, 1),
        connection_health_result("c".to_string(), true, now, 1),
    ];
    assert_eq!(count_healthy(&results), 2);
    assert_eq!(count_healthy(&Vec::new()), 0);
}

#[test]
fn mock_channel_starts_and_stops_unless_made_to_fail() {
    let mut ok = MockComBase::new("test_mock", 999, "Mock");
    assert_eq!(ok.name(), "test_mock");
    assert_eq!(ok.channel_id(), "999");
    assert_eq!(ok.protocol_type(), "Mock");
    assert!(!ok.is_running());
    ok.start().unwrap();
    assert!(ok.is_running());
    ok.stop().unwrap();
    assert!(!ok.is_running());
    let params = ok.get_parameters();
    assert_eq!(params.get("mock"), Some(&"true".to_string()));
    assert_eq!(params.get("channel_id"), Some(&"999".to_string()));

    let mut failing = MockComBase::with_start_failure("failing_mock", 998, "Mock");
    match failing.start() {
        Err(ComSrvError::InvalidOperation(m)) => assert_eq!(m, "Mock start failure"),
        other => panic!("unexpected {:?}", other),
    }
    assert!(!failing.is_running());

    let mut stop_failing = MockComBase::with_stop_failure("stop_failing_mock", 997, "Mock");
    stop_failing.start().unwrap();
    match stop_failing.stop() {
        Err(ComSrvError::InvalidOperation(m)) => assert_eq!(m, "Mock stop failure"),
        other => panic!("unexpected {:?}", other),
    }
    assert!(stop_failing.is_running());
}

#[test]
fn response_time_samples_keep_the_newest() {
    let mut stats = ResponseTimeStats::new(2);
    stats.add_sample(100);
    stats.add_sample(200);
    stats.add_sample(500);
    assert_eq!(stats.samples(), &vec![200, 500]);
    assert_eq!(stats.sample_count(), 2);
}
