use comsrv::combase::packet_parser::{PacketParseResult, ProtocolPacketParser, ProtocolParserRegistry};
use comsrv::combase::raw_value::{ProtocolResponse, RawProtocolValue};
use comsrv::combase::{
    ConnectionState, ExecutionStatus, PollingConfig, ProtocolRawData, TelemetryMetadata, TelemetryPointId, TelemetryType,
    UniversalDataProcessor, UniversalPointConfig, UniversalPointManager,
};
use comsrv::error::ComSrvError;
use comsrv::param_map::ParamMap;

#[test]
fn combase_test_polling_config_default() {
    let config = PollingConfig::default();
    assert!(config.enabled);
    assert_eq!(config.interval_ms, 1000);
    assert_eq!(config.max_points_per_cycle, 1000);
    assert_eq!(config.timeout_ms, 5000);
    assert_eq!(config.max_retries, 3);
    assert_eq!(config.retry_delay_ms, 1000);
    assert!(config.enable_batch_reading);
    assert_eq!(config.point_read_delay_ms, 10);
}

#[test]
fn test_polling_config_custom() {
    let config = PollingConfig {
        enabled: false,
        interval_ms: 500,
        max_points_per_cycle: 100,
        timeout_ms: 2000,
        max_retries: 1,
        retry_delay_ms: 500,
        enable_batch_reading: false,
        point_read_delay_ms: 50,
    };

    assert!(!config.enabled);
    assert_eq!(config.interval_ms, 500);
    assert_eq!(config.max_points_per_cycle, 100);
    assert_eq!(config.timeout_ms, 2000);
    assert_eq!(config.max_retries, 1);
    assert_eq!(config.retry_delay_ms, 500);
    assert!(!config.enable_batch_reading);
    assert_eq!(config.point_read_delay_ms, 50);
}

#[test]
fn combase_test_connection_state_equality() {
    assert_eq!(ConnectionState::Disconnected, ConnectionState::Disconnected);
    assert_eq!(ConnectionState::Connecting, ConnectionState::Connecting);
    assert_eq!(ConnectionState::Connected, ConnectionState::Connected);
    assert_eq!(
        ConnectionState::Error("test".to_string()),
        ConnectionState::Error("test".to_string())
    );

    assert_ne!(ConnectionState::Connected, ConnectionState::Disconnected);
    assert_ne!(
        ConnectionState::Error("a".to_string()),
        ConnectionState::Error("b".to_string())
    );
}

#[test]
fn test_telemetry_point_id_parsing() {
    let point_id = TelemetryPointId::from_string("telemetry:1001").unwrap();
    assert_eq!(point_id.telemetry_type, TelemetryType::Telemetry);
    assert_eq!(point_id.point_id, 1001);

    let signal_id = TelemetryPointId::from_string("signaling:2002").unwrap();
    assert_eq!(signal_id.telemetry_type, TelemetryType::Signaling);
    assert_eq!(signal_id.point_id, 2002);

    let id_str = point_id.to_string();
    assert_eq!(id_str, "Remote Measurement:1001");

    assert!(TelemetryPointId::from_string("invalid").is_err());
    assert!(TelemetryPointId::from_string("unknown:123").is_err());
    assert!(TelemetryPointId::from_string("telemetry:abc").is_err());
}

#[test]
fn point_id_parsing_lowercases_the_type_word_and_reports_errors() {
    let id = TelemetryPointId::from_string("SetPoint:42").unwrap();
    assert_eq!(id, TelemetryPointId::new(TelemetryType::Setpoint, 42));
    match TelemetryPointId::from_string("a:b:c") {
        Err(ComSrvError::ConfigError(m)) => assert_eq!(m, "Invalid point ID format, expected 'type:id'"),
        other => panic!("unexpected {:?}", other),
    }
    match TelemetryPointId::from_string("Unknown:1") {
        Err(ComSrvError::ConfigError(m)) => assert_eq!(m, "Unknown telemetry type: Unknown"),
        other => panic!("unexpected {:?}", other),
    }
    match TelemetryPointId::from_string("control:4294967296") {
        Err(ComSrvError::ConfigError(m)) => assert_eq!(m, "Invalid point ID: 4294967296"),
        other => panic!("unexpected {:?}", other),
    }
    assert_eq!(TelemetryPointId::from_string("control:+7").unwrap().point_id, 7);
}

#[test]
fn telemetry_type_names_and_kinds() {
    assert_eq!(TelemetryType::Telemetry.chinese_name(), "遥测");
    assert_eq!(TelemetryType::Setpoint.english_name(), "Remote Regulation");
    for t in [TelemetryType::Telemetry, TelemetryType::Signaling, TelemetryType::Control, TelemetryType::Setpoint] {
        assert_ne!(t.is_readable(), t.is_writable());
        assert_ne!(t.is_analog(), t.is_digital());
    }
}

fn metadata(invert_signal: Option<bool>, invert_control: Option<bool>) -> TelemetryMetadata {
    TelemetryMetadata {
        true_text: Some("Running".to_string()),
        false_text: None,
        invert_signal,
        true_command: None,
        false_command: Some("Halt".to_string()),
        invert_control,
    }
}

#[test]
fn data_processor_inverts_only_when_asked() {
    let p = UniversalDataProcessor;
    assert!(!p.apply_signal_invert(true, &Some(metadata(Some(true), None))));
    assert!(p.apply_signal_invert(true, &Some(metadata(Some(false), None))));
    assert!(p.apply_signal_invert(true, &None));
    let m = Some(metadata(None, Some(true)));
    assert!(p.apply_control_invert(p.apply_control_invert(true, &m), &m));
    assert!(!p.apply_control_invert(true, &m));
}

#[test]
fn data_processor_describes_states_and_commands() {
    let p = UniversalDataProcessor;
    let m = Some(metadata(None, None));
    assert_eq!(p.get_status_description(true, &m), "Running");
    assert_eq!(p.get_status_description(false, &m), "False");
    assert_eq!(p.get_status_description(true, &None), "True");
    assert_eq!(p.get_command_description(false, &m), "Halt");
    assert_eq!(p.get_command_description(true, &m), "Execute");
    assert_eq!(p.get_command_description(false, &None), "Stop");
}

#[test]
fn raw_register_and_bit_access() {
    let regs = RawProtocolValue::Registers(vec![0x0001, 0x8000]);
    assert_eq!(regs.get_register(1).unwrap(), 0x8000);
    assert!(regs.get_register_bit(1, 15).unwrap());
    assert!(!regs.get_register_bit(1, 14).unwrap());
    assert!(regs.to_bool(0).unwrap());
    match regs.get_register(2) {
        Err(ComSrvError::DataConversionError(m)) => assert_eq!(m, "Register index 2 out of range"),
        other => panic!("unexpected {:?}", other),
    }
    match regs.get_register_bit(0, 16) {
        Err(ComSrvError::DataConversionError(m)) => assert_eq!(m, "Bit position 16 out of range (0-15)"),
        other => panic!("unexpected {:?}", other),
    }
    let single = RawProtocolValue::SingleRegister(0);
    assert!(!single.to_bool(0).unwrap());
    match single.get_register(1) {
        Err(ComSrvError::DataConversionError(m)) => assert_eq!(m, "Single register but requested index 1"),
        other => panic!("unexpected {:?}", other),
    }
    let bits = RawProtocolValue::Bits(vec![false, true]);
    assert!(bits.get_bit(1).unwrap());
    match bits.get_register(0) {
        Err(ComSrvError::DataConversionError(m)) => assert_eq!(m, "Cannot extract register from non-register data"),
        other => panic!("unexpected {:?}", other),
    }
    match RawProtocolValue::SingleBit(true).get_bit(3) {
        Err(ComSrvError::DataConversionError(m)) => assert_eq!(m, "Single bit but requested index 3"),
        other => panic!("unexpected {:?}", other),
    }
    match regs.get_bit(0) {
        Err(ComSrvError::DataConversionError(m)) => assert_eq!(m, "Cannot extract bit from non-bit data"),
        other => panic!("unexpected {:?}", other),
    }
}

struct FixedResponse;

impl ProtocolResponse for FixedResponse {
    fn parse_registers(&self) -> Result<Vec<u16>, ComSrvError> {
        Ok(vec![7, 8])
    }

    fn parse_bits(&self) -> Result<Vec<bool>, ComSrvError> {
        Err(ComSrvError::InvalidData("no coils".to_string()))
    }
}

#[test]
fn raw_values_from_a_response() {
    let v = RawProtocolValue::from_registers(&FixedResponse).unwrap();
    assert_eq!(v, RawProtocolValue::Registers(vec![7, 8]));
    assert!(RawProtocolValue::from_bits(&FixedResponse).is_err());
}

fn point(index: u32, name: &str, t: TelemetryType) -> UniversalPointConfig {
    UniversalPointConfig::new(index, name.to_string(), t, "V".to_string())
}

#[test]
fn point_table_add_find_and_remove() {
    let mut m = UniversalPointManager::new();
    m.add_point(point(1001, "Voltage", TelemetryType::Telemetry)).unwrap();
    m.add_point(point(2001, "Breaker", TelemetryType::Signaling)).unwrap();
    m.add_point(point(3001, "Pump", TelemetryType::Control)).unwrap();
    assert_eq!(m.get_point_by_index(1001).unwrap().point_name, "Voltage");
    assert_eq!(m.get_point_by_name("Pump").unwrap().point_index, 3001);
    assert_eq!(m.get_points_by_type(&TelemetryType::Signaling).len(), 1);
    assert_eq!(m.get_all_points().len(), 3);
    match m.add_point(point(1001, "Other", TelemetryType::Telemetry)) {
        Err(ComSrvError::ConfigError(msg)) => assert_eq!(msg, "Point index 1001 already exists"),
        other => panic!("unexpected {:?}", other),
    }
    match m.add_point(point(1002, "Voltage", TelemetryType::Telemetry)) {
        Err(ComSrvError::ConfigError(msg)) => assert_eq!(msg, "Point name 'Voltage' already exists"),
        other => panic!("unexpected {:?}", other),
    }
    m.remove_point(2001).unwrap();
    assert!(m.get_point_by_index(2001).is_none());
    match m.remove_point(2001) {
        Err(ComSrvError::ConfigError(msg)) => assert_eq!(msg, "Point index 2001 not found"),
        other => panic!("unexpected {:?}", other),
    }
    let stats = m.get_statistics();
    assert_eq!(stats.total_points, 2);
    assert_eq!(stats.telemetry_points, 1);
    assert_eq!(stats.control_points, 1);
    assert_eq!(stats.enabled_points, 2);
}

#[test]
fn point_validation_rules() {
    let mut p = point(1, "Flow", TelemetryType::Telemetry);
    assert!(p.validate().is_ok());
    p.access_mode = "write".to_string();
    match p.validate() {
        Err(ComSrvError::ConfigError(msg)) => {
            assert_eq!(msg, "Measurement and signaling points should be read-only, got: write")
        }
        other => panic!("unexpected {:?}", other),
    }
    let mut c = point(2, "Valve", TelemetryType::Setpoint);
    c.scale_bits = 0f64.to_bits();
    match c.validate() {
        Err(ComSrvError::ConfigError(msg)) => assert_eq!(msg, "Scale factor cannot be zero"),
        other => panic!("unexpected {:?}", other),
    }
    let empty = point(3, "", TelemetryType::Control);
    match empty.validate() {
        Err(ComSrvError::ConfigError(msg)) => assert_eq!(msg, "Point name cannot be empty"),
        other => panic!("unexpected {:?}", other),
    }
}

#[test]
fn point_update_renames_and_moves_type() {
    let mut m = UniversalPointManager::new();
    m.add_point(point(5, "A", TelemetryType::Telemetry)).unwrap();
    m.add_point(point(6, "B", TelemetryType::Telemetry)).unwrap();
    let moved = point(5, "A2", TelemetryType::Control);
    m.update_point(5, moved).unwrap();
    assert_eq!(m.get_point_by_index(5).unwrap().point_name, "A2");
    assert_eq!(m.get_points_by_type(&TelemetryType::Control).len(), 1);
    assert_eq!(m.get_points_by_type(&TelemetryType::Telemetry).len(), 1);
    match m.update_point(6, point(6, "A2", TelemetryType::Telemetry)) {
        Err(ComSrvError::ConfigError(_)) => {}
        other => panic!("unexpected {:?}", other),
    }
}

#[test]
fn test_packet_parse_result_success() {
    let mut fields = ParamMap::new();
    fields.insert("function_code".to_string(), "0x03".to_string());
    fields.insert("data_length".to_string(), "4".to_string());

    let result = PacketParseResult::success(
        "Modbus",
        "send",
        "01 03 00 00 00 02 c4 0b",
        "Read holding registers request",
        fields.clone(),
    );

    assert_eq!(result.protocol, "Modbus");
    assert_eq!(result.direction, "send");
    assert_eq!(result.hex_data, "01 03 00 00 00 02 c4 0b");
    assert_eq!(result.description, "Read holding registers request");
    assert_eq!(result.fields, fields);
    assert!(result.success);
    assert!(result.error.is_none());
}

#[test]
fn test_packet_parse_result_failure() {
    let result = PacketParseResult::failure("Modbus", "receive", "01 83 02", "Invalid function code");

    assert_eq!(result.protocol, "Modbus");
    assert_eq!(result.direction, "receive");
    assert_eq!(result.hex_data, "01 83 02");
    assert!(result.description.contains("Parse error"));
    assert!(result.fields.is_empty());
    assert!(!result.success);
    assert!(result.error.is_some());
    assert_eq!(result.error.unwrap(), "Invalid function code");
}

#[test]
fn test_packet_parse_result_format_debug_log() {
    let mut fields = ParamMap::new();
    fields.insert("test".to_string(), "value".to_string());

    let success_result = PacketParseResult::success("Test", "send", "01 02 03", "Test packet", fields);

    let log = success_result.format_debug_log();
    assert!(log.contains("SEND"));
    assert!(log.contains("01 02 03"));
    assert!(log.contains("Test packet"));

    let failure_result = PacketParseResult::failure("Test", "receive", "04 05 06", "Parse failed");

    let log = failure_result.format_debug_log();
    assert!(log.contains("RECEIVE"));
    assert!(log.contains("04 05 06"));
    assert!(log.contains("Parse failed"));
}

#[test]
fn packet_debug_log_exact_text() {
    let ok = PacketParseResult::success("X", "send", "0a", "desc", ParamMap::new());
    assert_eq!(ok.format_debug_log(), "[SEND] 0a | desc");
    let bad = PacketParseResult::failure("X", "receive", "0b", "boom");
    assert_eq!(bad.format_debug_log(), "[RECEIVE] 0b | Parse error: boom (boom)");
    let mut unknown = bad.clone();
    unknown.error = None;
    assert_eq!(unknown.format_debug_log(), "[RECEIVE] 0b | Parse error: boom (Unknown error)");
}

struct MockParser {
    protocol: String,
}

impl MockParser {
    fn new(protocol: &str) -> Self {
        Self { protocol: protocol.to_string() }
    }
}

impl ProtocolPacketParser for MockParser {
    fn protocol_name(&self) -> &str {
        &self.protocol
    }

    fn parse_packet(&self, data: &[u8], direction: &str) -> PacketParseResult {
        let hex_data = self.format_hex_data(data);
        PacketParseResult::success(&self.protocol, direction, &hex_data, "Mock parsed packet", ParamMap::new())
    }
}

#[test]
fn test_protocol_parser_registry() {
    let mut registry = ProtocolParserRegistry::new();
    assert!(registry.registered_protocols().is_empty());

    registry.register_parser(MockParser::new("Modbus"));
    registry.register_parser(MockParser::new("IEC60870"));

    let protocols = registry.registered_protocols();
    assert_eq!(protocols.len(), 2);
    assert!(protocols.contains(&"Modbus".to_string()));
    assert!(protocols.contains(&"IEC60870".to_string()));

    let data = [0x01, 0x03, 0x00, 0x00];
    let result = registry.parse_packet("Modbus", &data, "send");
    assert!(result.success);
    assert_eq!(result.protocol, "Modbus");
    assert_eq!(result.direction, "send");

    let result = registry.parse_packet("Unknown", &data, "send");
    assert!(!result.success);
    assert!(result.error.is_some());
    assert!(result.error.unwrap().contains("No parser registered"));
}

#[test]
fn parser_registry_replaces_a_parser_with_the_same_name() {
    let mut registry = ProtocolParserRegistry::new();
    registry.register_parser(MockParser::new("Modbus"));
    registry.register_parser(MockParser::new("Modbus"));
    assert_eq!(registry.registered_protocols(), vec!["Modbus".to_string()]);
    let result = registry.parse_packet("Nope", &[0xFF, 0x00], "receive");
    assert_eq!(result.hex_data, "ff 00");
    assert_eq!(result.error.unwrap(), "No parser registered for protocol: Nope");
}

#[test]
fn point_id_text_round_trip() {
    let cases = [
        ("telemetry", TelemetryType::Telemetry),
        ("signaling", TelemetryType::Signaling),
        ("control", TelemetryType::Control),
        ("setpoint", TelemetryType::Setpoint),
    ];
    for (word, t) in cases {
        for n in [0u32, 7, 4294967295] {
            let text = format!("{}:{}", word, n);
            assert_eq!(TelemetryPointId::from_string(&text).unwrap(), TelemetryPointId::new(t, n));
        }
    }
}

#[test]
fn signal_inversion_twice_is_identity() {
    let p = UniversalDataProcessor;
    let m = Some(metadata(Some(true), None));
    for v in [true, false] {
        assert_eq!(p.apply_signal_invert(p.apply_signal_invert(v, &m), &m), v);
    }
}

#[test]
fn processor_signaling_and_control_data() {
    let processor = UniversalDataProcessor;
    let mut config = UniversalPointConfig::new(3, "Breaker".to_string(), TelemetryType::Control, "".to_string());
    config.telemetry_metadata = Some(TelemetryMetadata {
        true_text: Some("Closed".to_string()),
        false_text: None,
        invert_signal: Some(true),
        true_command: Some("Close".to_string()),
        false_command: None,
        invert_control: Some(true),
    });
    let s = processor.process_signaling_data(ProtocolRawData::Binary(false), &config).unwrap();
    assert!(s.status);
    assert_eq!(s.status_text, "Closed");
    let c = processor.process_control_data(ProtocolRawData::Binary(true), &config).unwrap();
    assert!(!c.current_state);
    assert_eq!(c.command_text, "Stop");
    assert_eq!(c.execution_status, ExecutionStatus::Completed);
    match processor.process_signaling_data(ProtocolRawData::Decimal(1.5f64.to_bits()), &config) {
        Err(ComSrvError::ConfigError(m)) => assert_eq!(m, "Invalid signaling data type"),
        other => panic!("unexpected {:?}", other.map(|p| p.status)),
    }
    match processor.process_control_data(ProtocolRawData::Invalid, &config) {
        Err(ComSrvError::ConfigError(m)) => assert_eq!(m, "Invalid control data type"),
        other => panic!("unexpected {:?}", other.map(|p| p.current_state)),
    }
    let sent = processor.prepare_control_command(true, &config).unwrap();
    assert_eq!(sent, ProtocolRawData::Binary(false));
    let back = processor.process_control_data(sent, &config).unwrap();
    assert!(back.current_state);
}

#[test]
fn protocol_raw_data_accessors() {
    let d = ProtocolRawData::Decimal(2.5f64.to_bits());
    assert_eq!(d.as_decimal().map(f64::from_bits), Some(2.5));
    assert_eq!(d.as_binary(), None);
    assert!(d.is_valid());
    assert_eq!(ProtocolRawData::Binary(true).as_binary(), Some(true));
    assert!(!ProtocolRawData::Invalid.is_valid());
}

#[test]
fn raw_value_analog_register() {
    let regs = RawProtocolValue::Registers(vec![10, 20]);
    assert_eq!(regs.analog_register(1).unwrap(), 20);
    match regs.analog_register(2) {
        Err(ComSrvError::DataConversionError(m)) => assert_eq!(m, "Register index 2 out of range"),
        other => panic!("unexpected {:?}", other),
    }
    assert_eq!(RawProtocolValue::SingleRegister(7).analog_register(0).unwrap(), 7);
    match RawProtocolValue::SingleRegister(7).analog_register(1) {
        Err(ComSrvError::DataConversionError(m)) => assert_eq!(m, "Single register but requested index 1"),
        other => panic!("unexpected {:?}", other),
    }
    match RawProtocolValue::Bits(vec![true]).analog_register(0) {
        Err(ComSrvError::DataConversionError(m)) => assert_eq!(m, "Cannot convert non-register data to float"),
        other => panic!("unexpected {:?}", other),
    }
}

#[test]
fn point_update_keeps_the_number_it_was_given() {
    let mut m = UniversalPointManager::new();
    m.add_point(point(10, "Level", TelemetryType::Telemetry)).unwrap();
    m.update_point(10, point(99, "Height", TelemetryType::Telemetry)).unwrap();
    let by_number = m.get_point_by_index(10).unwrap();
    assert_eq!(by_number.point_name, "Height");
    assert_eq!(by_number.point_index, 99);
    assert!(m.get_point_by_index(99).is_none());
    assert_eq!(m.get_point_by_name("Height").unwrap().point_index, 99);
    assert!(m.get_point_by_name("Level").is_none());
    assert_eq!(m.get_points_by_type(&TelemetryType::Telemetry).len(), 1);
}
