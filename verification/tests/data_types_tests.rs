use comsrv::combase::data_types::{ChannelStatus, ConnectionState, PollingConfig, ProtocolResponse, RawProtocolValue};
use comsrv::combase::telemetry::TelemetryType;
use comsrv::error::ComSrvError;

#[test]
fn data_types_test_polling_config_default() {
    let config = PollingConfig::default();
    assert!(config.enabled);
    assert_eq!(config.interval_ms, 1000);
    assert_eq!(config.max_points_per_cycle, 100);
    assert_eq!(config.timeout_ms, 5000);
    assert_eq!(config.max_retries, 3);
    assert_eq!(config.retry_delay_ms, 1000);
    assert!(config.enable_batch_reading);
    assert_eq!(config.point_read_delay_ms, 10);
}

#[test]
fn data_types_test_connection_state_equality() {
    assert_eq!(ConnectionState::Disconnected, ConnectionState::Disconnected);
    assert_eq!(ConnectionState::Connecting, ConnectionState::Connecting);
    assert_eq!(ConnectionState::Connected, ConnectionState::Connected);
    assert_eq!(
        ConnectionState::Error("test".to_string()),
        ConnectionState::Error("test".to_string())
    );
    assert_ne!(
        ConnectionState::Error("test1".to_string()),
        ConnectionState::Error("test2".to_string())
    );
}

#[test]
fn test_telemetry_type_properties() {
    assert!(TelemetryType::Telemetry.is_readable());
    assert!(!TelemetryType::Telemetry.is_writable());
    assert!(TelemetryType::Telemetry.is_analog());
    assert!(!TelemetryType::Telemetry.is_digital());

    assert!(TelemetryType::Signaling.is_readable());
    assert!(!TelemetryType::Signaling.is_writable());
    assert!(!TelemetryType::Signaling.is_analog());
    assert!(TelemetryType::Signaling.is_digital());

    assert!(!TelemetryType::Control.is_readable());
    assert!(TelemetryType::Control.is_writable());
    assert!(!TelemetryType::Control.is_analog());
    assert!(TelemetryType::Control.is_digital());

    assert!(!TelemetryType::Setpoint.is_readable());
    assert!(TelemetryType::Setpoint.is_writable());
    assert!(TelemetryType::Setpoint.is_analog());
    assert!(!TelemetryType::Setpoint.is_digital());
}

#[test]
fn telemetry_type_short_english_names() {
    assert_eq!(TelemetryType::Telemetry.english_name(), "Measurement");
    assert_eq!(TelemetryType::Setpoint.english_name(), "Regulation");
    assert_eq!(TelemetryType::Signaling.chinese_name(), "遥信");
    assert_eq!(TelemetryType::Control.chinese_name(), "遥控");
}

fn invalid_parameter(r: Result<impl std::fmt::Debug, ComSrvError>) -> String {
    match r {
        Err(ComSrvError::InvalidParameter(m)) => m,
        other => panic!("unexpected {:?}", other),
    }
}

#[test]
fn raw_value_accessors_report_parameter_errors() {
    let regs = RawProtocolValue::Registers(vec![10, 0]);
    assert_eq!(regs.get_register(0).unwrap(), 10);
    assert!(regs.to_bool(0).unwrap());
    assert!(!regs.to_bool(1).unwrap());
    assert_eq!(invalid_parameter(regs.get_register(2)), "Register index 2 out of bounds");
    assert_eq!(invalid_parameter(regs.get_bit(0)), "Not a bit value");

    let single = RawProtocolValue::SingleRegister(9);
    assert_eq!(single.get_register(0).unwrap(), 9);
    assert_eq!(invalid_parameter(single.get_register(1)), "Not a register value");

    let bits = RawProtocolValue::Bits(vec![true]);
    assert!(bits.get_bit(0).unwrap());
    assert!(bits.to_bool(0).unwrap());
    assert_eq!(invalid_parameter(bits.get_bit(1)), "Bit index 1 out of bounds");
    assert_eq!(invalid_parameter(bits.get_register(0)), "Not a register value");
    assert_eq!(invalid_parameter(RawProtocolValue::SingleBit(false).get_bit(1)), "Not a bit value");
}

struct CoilResponse;

impl ProtocolResponse for CoilResponse {
    fn parse_registers(&self) -> Result<Vec<u16>, ComSrvError> {
        Err(ComSrvError::InvalidData("not registers".to_string()))
    }

    fn parse_bits(&self) -> Result<Vec<bool>, ComSrvError> {
        Ok(vec![true, false, true])
    }
}

#[test]
fn raw_value_from_response_bits() {
    let v = RawProtocolValue::from_bits(&CoilResponse).unwrap();
    assert_eq!(v, RawProtocolValue::Bits(vec![true, false, true]));
    match RawProtocolValue::from_registers(&CoilResponse) {
        Err(ComSrvError::InvalidData(m)) => assert_eq!(m, "not registers"),
        other => panic!("unexpected {:?}", other),
    }
}

#[test]
fn channel_status_new_and_error() {
    let mut status = ChannelStatus::new("ch-1");
    assert_eq!(status.id_ref(), "ch-1");
    assert!(!status.is_connected());
    assert!(!status.has_error());
    assert_eq!(f64::from_bits(status.response_time_bits()), 0.0);
    status.last_error = "timeout".to_string();
    assert!(status.has_error());
    assert_eq!(status.error_ref(), "timeout");
    assert!(status.last_update() <= std::time::SystemTime::now());
}
