use comsrv::combase::defaults::{
    get_channel_defaults, get_default_data_type, get_default_function_code, get_default_unit, ModbusFunctionCode,
};
use comsrv::combase::point_manager::{get_default_scale, DefaultScale, UniversalPointConfig};
use comsrv::combase::simplified_mapping::{ModbusMapping, ProtocolMapping, SimpleMappingTable, SimplePointMapping};
use comsrv::combase::smart_mapping::{SimplifiedMappingRecord, SmartProtocolMapping};
use comsrv::combase::telemetry::TelemetryType;

#[test]
fn test_default_data_type() {
    assert_eq!(get_default_data_type(&TelemetryType::Telemetry), "float32");
    assert_eq!(get_default_data_type(&TelemetryType::Setpoint), "float32");
    assert_eq!(get_default_data_type(&TelemetryType::Signaling), "bool");
    assert_eq!(get_default_data_type(&TelemetryType::Control), "bool");
}

#[test]
fn test_default_function_code() {
    assert_eq!(get_default_function_code(&TelemetryType::Telemetry), ModbusFunctionCode::Read03);
    assert_eq!(get_default_function_code(&TelemetryType::Signaling), ModbusFunctionCode::Read02);
    assert_eq!(get_default_function_code(&TelemetryType::Control), ModbusFunctionCode::Write05);
    assert_eq!(get_default_function_code(&TelemetryType::Setpoint), ModbusFunctionCode::Write06);
}

#[test]
fn test_default_unit() {
    assert_eq!(get_default_unit("voltage_a"), Some("V"));
    assert_eq!(get_default_unit("current_phase_b"), Some("A"));
    assert_eq!(get_default_unit("active_power"), Some("kW"));
    assert_eq!(get_default_unit("reactive_power"), Some("kVar"));
    assert_eq!(get_default_unit("temperature_sensor"), Some("°C"));
    assert_eq!(get_default_unit("unknown_signal"), None);
}

#[test]
fn default_unit_ignores_case_and_reads_chinese_names() {
    assert_eq!(get_default_unit("Bus VOLTAGE"), Some("V"));
    assert_eq!(get_default_unit("Apparent_Power"), Some("kVA"));
    assert_eq!(get_default_unit("总电能"), Some("kWh"));
    assert_eq!(get_default_unit("电量"), Some("kWh"));
    assert_eq!(get_default_unit("频率"), Some("Hz"));
    assert_eq!(get_default_unit("Oil Pressure"), Some("bar"));
    assert_eq!(get_default_unit("water_flow"), Some("m³/h"));
    assert_eq!(get_default_unit("功率因数"), Some("kW"));
    assert_eq!(get_default_unit("负载率"), Some("%"));
    assert_eq!(get_default_unit("load_percent"), Some("%"));
}

#[test]
fn test_channel_defaults() {
    let modbus_tcp_defaults = get_channel_defaults("modbus_tcp");
    assert_eq!(modbus_tcp_defaults.get("port"), Some(&"502".to_string()));
    assert_eq!(modbus_tcp_defaults.get("timeout"), Some(&"3000".to_string()));

    let modbus_rtu_defaults = get_channel_defaults("modbus_rtu");
    assert_eq!(modbus_rtu_defaults.get("baud_rate"), Some(&"9600".to_string()));
    assert_eq!(modbus_rtu_defaults.get("parity"), Some(&"none".to_string()));
}

#[test]
fn channel_defaults_for_other_protocols() {
    let iec = get_channel_defaults("IEC104");
    assert_eq!(iec.len(), 6);
    assert_eq!(iec.get("port"), Some(&"2404".to_string()));
    assert_eq!(iec.get("t3"), Some(&"20".to_string()));
    let can = get_channel_defaults("can");
    assert_eq!(can.get("bitrate"), Some(&"500000".to_string()));
    assert_eq!(can.len(), 2);
    assert!(get_channel_defaults("opcua").is_empty());
}

#[test]
fn function_code_numbers() {
    assert_eq!(ModbusFunctionCode::Read01.code(), 1);
    assert_eq!(ModbusFunctionCode::Read04.code(), 4);
    assert_eq!(ModbusFunctionCode::Write0F.code(), 15);
    assert_eq!(ModbusFunctionCode::Write10.code(), 16);
}

#[test]
fn test_smart_defaults() {
    let mapping = SmartProtocolMapping::new(10001, "voltage_a".to_string(), 100);

    assert_eq!(mapping.get_slave_id(), 1);
    assert_eq!(mapping.get_function_code(&TelemetryType::Telemetry), 3);
    assert_eq!(mapping.get_function_code(&TelemetryType::Control), 5);
    assert_eq!(mapping.get_register_address().unwrap(), 100);
}

#[test]
fn test_minimal_csv_record() {
    let record = SimplifiedMappingRecord {
        point_id: 10001,
        signal_name: "voltage_a".to_string(),
        register_address: 100,
        slave_id: None,
        function_code: None,
        data_format: None,
    };

    let mapping = record.to_smart_mapping();
    assert_eq!(mapping.get_slave_id(), 1);
    assert_eq!(mapping.get_data_format(&TelemetryType::Telemetry), "float32");
}

#[test]
fn test_build_address_string() {
    let mapping = SmartProtocolMapping::new(10001, "voltage_a".to_string(), 100);
    let address = mapping.build_address_string(&TelemetryType::Telemetry).unwrap();
    assert_eq!(address, "1:3:100");
}

#[test]
fn smart_mapping_reads_given_parameters() {
    let mapping = SmartProtocolMapping::from_csv_minimal(7, "pump".to_string(), 40001, Some(3), Some(4));
    assert_eq!(mapping.get_slave_id(), 3);
    assert_eq!(mapping.get_function_code(&TelemetryType::Telemetry), 4);
    assert_eq!(mapping.build_address_string(&TelemetryType::Control).unwrap(), "3:4:40001");
    assert_eq!(mapping.get_timeout_ms(), 3000);
    assert_eq!(mapping.get_data_format(&TelemetryType::Control), "bool");
    let default_slave = SmartProtocolMapping::from_csv_minimal(7, "pump".to_string(), 1, Some(1), None);
    assert!(default_slave.protocol_params.get("slave_id").is_none());
    assert_eq!(default_slave.protocol_params.len(), 1);
}

#[test]
fn smart_mapping_falls_back_on_bad_text_and_reports_address_errors() {
    let mut mapping = SmartProtocolMapping::new(1, "x".to_string(), 5);
    mapping.protocol_params.insert("slave_id".to_string(), "300".to_string());
    mapping.protocol_params.insert("timeout".to_string(), "250".to_string());
    mapping.protocol_params.insert("data_format".to_string(), "int16".to_string());
    assert_eq!(mapping.get_slave_id(), 1);
    assert_eq!(mapping.get_timeout_ms(), 250);
    assert_eq!(mapping.get_data_format(&TelemetryType::Telemetry), "int16");
    mapping.protocol_params.insert("address".to_string(), "70000".to_string());
    assert_eq!(mapping.get_register_address().unwrap_err(), "Invalid address format: 70000");
    assert_eq!(
        mapping.build_address_string(&TelemetryType::Telemetry).unwrap_err(),
        "Invalid address format: 70000"
    );

    let mut other = SmartProtocolMapping::new(2, "y".to_string(), 0);
    other.protocol_params = comsrv::param_map::ParamMap::new();
    assert_eq!(other.get_register_address().unwrap_err(), "No address specified in protocol_params");
    other.protocol_params.insert("register_address".to_string(), "12".to_string());
    assert_eq!(other.get_register_address().unwrap(), 12);
}

fn simple(id: &str, t: TelemetryType) -> SimplePointMapping {
    SimplePointMapping { point_id: id.to_string(), telemetry_type: t }
}

#[test]
fn simple_mapping_table_indexes_by_id_and_type() {
    let mut table = SimpleMappingTable::new();
    assert!(table.is_empty());
    table.add_point(simple("1001", TelemetryType::Telemetry));
    table.add_point(simple("2001", TelemetryType::Signaling));
    table.add_point(simple("1002", TelemetryType::Telemetry));
    assert_eq!(table.len(), 3);
    assert_eq!(table.get_point("2001").unwrap().telemetry_type, TelemetryType::Signaling);
    assert!(table.get_point("9999").is_none());
    let ids: Vec<String> = table
        .get_points_by_type(&TelemetryType::Telemetry)
        .iter()
        .map(|m| m.point_id.clone())
        .collect();
    assert_eq!(ids, vec!["1001".to_string(), "1002".to_string()]);
    assert!(table.get_points_by_type(&TelemetryType::Control).is_empty());
}

#[test]
fn simple_mapping_table_readding_an_id_replaces_the_point() {
    let mut table = SimpleMappingTable::new();
    table.add_point(simple("7", TelemetryType::Telemetry));
    table.add_point(simple("7", TelemetryType::Control));
    assert_eq!(table.len(), 1);
    assert_eq!(table.get_point("7").unwrap().telemetry_type, TelemetryType::Control);
    let by_control = table.get_points_by_type(&TelemetryType::Control);
    assert_eq!(by_control.len(), 1);
    // the id left the measurement list
    assert!(table.get_points_by_type(&TelemetryType::Telemetry).is_empty());
    // adding it again under the same type lists it once
    table.add_point(simple("7", TelemetryType::Control));
    assert_eq!(table.get_points_by_type(&TelemetryType::Control).len(), 1);
}

#[test]
fn modbus_mapping_address_string() {
    let m = ModbusMapping {
        base: simple("5", TelemetryType::Setpoint),
        slave_id: 2,
        function_code: 6,
        register_address: 40010,
    };
    assert_eq!(m.get_address_string(), "2:6:40010");
    assert_eq!(m.get_simple_mapping().point_id, "5");
}

fn create_test_config() -> UniversalPointConfig {
    UniversalPointConfig::new(1001, "Test Temperature", TelemetryType::Telemetry)
}

#[test]
fn test_point_config_creation() {
    let config = create_test_config();
    assert_eq!(config.point_id, 1001);
    assert_eq!(config.get_name(), "Test Temperature");
    assert_eq!(config.telemetry_type, TelemetryType::Telemetry);
    assert!(config.enabled);
    assert!(config.readable);
}

#[test]
fn test_point_config_validation() {
    let config = create_test_config();
    assert!(config.validate().is_ok());

    let mut invalid_config = config.clone();
    invalid_config.point_id = 0;
    assert!(invalid_config.validate().is_err());
}

#[test]
fn test_digital_value_processing() {
    let mut config = create_test_config();
    config.reverse = 1;

    let processed = config.process_digital_value(true);
    assert_eq!(processed, false);

    let processed2 = config.process_digital_value(false);
    assert_eq!(processed2, true);
}

#[test]
fn point_config_smart_defaults_and_errors() {
    let config = create_test_config();
    assert_eq!(config.unit.as_deref(), Some("°C"));
    assert_eq!(f64::from_bits(config.scale_bits), 1.0);
    assert_eq!(config.get_data_type(), "float32");
    assert_eq!(config.id(), "1001");
    assert!(!config.writable);
    let control = UniversalPointConfig::new(5, "Breaker", TelemetryType::Control);
    assert!(control.writable);
    assert_eq!(control.get_data_type(), "bool");
    let register = UniversalPointConfig::new(6, "Active_Power_Register", TelemetryType::Telemetry);
    assert_eq!(register.unit.as_deref(), Some("kW"));
    assert_eq!(f64::from_bits(register.scale_bits), 0.001);
    assert_eq!(get_default_scale(Some("MW"), "gen REGISTER"), DefaultScale::Micro);
    assert_eq!(get_default_scale(Some("MW"), "gen"), DefaultScale::One);
    assert_eq!(get_default_scale(None, "register"), DefaultScale::One);
    assert_eq!(f64::from_bits(DefaultScale::Micro.bits()), 0.000001);

    let mut unnamed = UniversalPointConfig::new(9, "x", TelemetryType::Signaling);
    unnamed.name = None;
    assert_eq!(unnamed.get_name(), "Point_9");
    unnamed.reverse = 2;
    match unnamed.validate() {
        Err(comsrv::error::ComSrvError::InvalidParameter(m)) => assert_eq!(m, "Reverse must be 0 or 1"),
        other => panic!("unexpected {:?}", other),
    }
    unnamed.reverse = 0;
    unnamed.data_type = Some(String::new());
    match unnamed.validate() {
        Err(comsrv::error::ComSrvError::InvalidParameter(m)) => assert_eq!(m, "Data type cannot be empty"),
        other => panic!("unexpected {:?}", other),
    }
}

#[test]
fn simplified_record_keeps_its_data_format() {
    let record = comsrv::combase::smart_mapping::SimplifiedMappingRecord {
        point_id: 10001,
        signal_name: "voltage_a".to_string(),
        register_address: 100,
        slave_id: Some(2),
        function_code: Some(4),
        data_format: Some("int16".to_string()),
    };
    let m = record.to_smart_mapping();
    assert_eq!(m.get_data_format(&TelemetryType::Telemetry), "int16");
    assert_eq!(m.get_slave_id(), 2);
    assert_eq!(m.get_function_code(&TelemetryType::Telemetry), 4);
    assert_eq!(m.get_register_address(), Ok(100));
}

#[test]
fn default_unit_ignores_case_and_orders_power_first() {
    assert_eq!(get_default_unit("有功功率"), Some("kW"));
    assert_eq!(get_default_unit("无功功率"), Some("kVar"));
    assert_eq!(get_default_unit("Apparent_Power"), Some("kVA"));
    assert_eq!(get_default_unit("频率"), Some("Hz"));
    assert_eq!(get_default_unit("VOLTAGE_A"), get_default_unit("voltage_a"));
}
