use comsrv::can::client::{bit_rate_from_param, decode_payload, interface_type_from_param, unique_can_ids, CanRawValue};
use comsrv::can::common::{
    CanBitRate, CanByteOrder, CanDataConfig, CanDataType, CanError, CanFrameFormat, CanInterfaceType, CanMessageMapping,
};
use comsrv::can::config::CanConfig;
use comsrv::can::frame::{CanFilter, CanFrame, CanId};
use comsrv::can::plugin::{CanParams, CanPlugin, FilterEntry, ParamValue};
use comsrv::can::CanPacketParser;
use comsrv::combase::packet_parser::ProtocolPacketParser;
use comsrv::error::ComSrvError;

#[test]
fn test_can_data_type_sizes() {
    assert_eq!(CanDataType::Bool.size_bytes(), 1);
    assert_eq!(CanDataType::UInt8.size_bytes(), 1);
    assert_eq!(CanDataType::UInt16.size_bytes(), 2);
    assert_eq!(CanDataType::UInt32.size_bytes(), 4);
    assert_eq!(CanDataType::UInt64.size_bytes(), 8);
    assert_eq!(CanDataType::Float32.size_bytes(), 4);
    assert_eq!(CanDataType::Float64.size_bytes(), 8);
    assert_eq!(CanDataType::String(20).size_bytes(), 20);
}

#[test]
fn test_can_bit_rate_values() {
    assert_eq!(CanBitRate::Kbps125.bits_per_second(), 125000);
    assert_eq!(CanBitRate::Kbps250.bits_per_second(), 250000);
    assert_eq!(CanBitRate::Kbps500.bits_per_second(), 500000);
    assert_eq!(CanBitRate::Mbps1.bits_per_second(), 1000000);
}

#[test]
fn test_can_error_display() {
    let error = CanError::InvalidCanId(0x123);
    assert_eq!(error.to_string(), "Invalid CAN ID: 0x123");

    let error = CanError::InterfaceNotAvailable("can0".to_string());
    assert_eq!(error.to_string(), "CAN interface not available: can0");
}

#[test]
fn test_can_frame_creation() {
    let frame = CanFrame::new_standard(0x123, vec![1, 2, 3, 4]).unwrap();
    assert_eq!(frame.id, CanId::Standard(0x123));
    assert_eq!(frame.data, vec![1, 2, 3, 4]);
    assert_eq!(frame.dlc(), 4);
    assert!(!frame.is_rtr());
}

#[test]
fn test_can_filter() {
    let filter = CanFilter::new(0x100, 0xFF0, false);

    let frame1 = CanFrame::new_standard(0x123, vec![]).unwrap();
    let frame2 = CanFrame::new_standard(0x200, vec![]).unwrap();

    assert!(filter.matches(&frame1));
    assert!(!filter.matches(&frame2));
}

#[test]
fn can_frame_rejects_long_payload_and_large_ids() {
    assert_eq!(
        CanFrame::new(CanId::Standard(1), vec![0; 9]).unwrap_err(),
        "CAN frame data cannot exceed 8 bytes"
    );
    assert_eq!(
        CanFrame::new_standard(0x800, vec![]).unwrap_err(),
        "Standard CAN ID cannot exceed 0x7FF"
    );
    assert_eq!(
        CanFrame::new_extended(0x2000_0000, vec![]).unwrap_err(),
        "Extended CAN ID cannot exceed 0x1FFFFFFF"
    );
    assert_eq!(CanFrame::new_rtr(CanId::Extended(5), 9).unwrap_err(), "DLC cannot exceed 8");
    assert!(CanFrame::new_standard(0x7FF, vec![0; 8]).is_ok());
    assert!(CanFrame::new_extended(0x1FFF_FFFF, vec![1]).is_ok());
}

#[test]
fn can_remote_frame_reports_requested_length() {
    let frame = CanFrame::new_rtr(CanId::Extended(0x18FF_0001), 6).unwrap();
    assert!(frame.is_rtr());
    assert!(!frame.is_error());
    assert_eq!(frame.dlc(), 6);
    assert!(frame.id.is_extended());
    assert_eq!(frame.id.raw(), 0x18FF_0001);
}

#[test]
fn can_filter_zero_mask_accepts_every_frame_of_its_kind() {
    let filter = CanFilter::new(0x555, 0, false);
    for id in [0u16, 0x123, 0x7FF] {
        let frame = CanFrame::new_standard(id, vec![]).unwrap();
        assert!(filter.matches(&frame));
    }
    let extended = CanFrame::new_extended(0x123, vec![]).unwrap();
    assert!(!filter.matches(&extended));
}

#[test]
fn can_filter_requires_the_bits_of_id_and_mask() {
    let filter = CanFilter::new(0x321, 0x7FF, false);
    assert!(filter.matches(&CanFrame::new_standard(0x321, vec![]).unwrap()));
    assert!(filter.matches(&CanFrame::new_standard(0x7FF, vec![]).unwrap()));
    assert!(!filter.matches(&CanFrame::new_standard(0x320, vec![]).unwrap()));
    let partial = CanFilter::new(0x0F0, 0x030, true);
    assert!(partial.matches(&CanFrame::new_extended(0x030, vec![]).unwrap()));
    assert!(!partial.matches(&CanFrame::new_extended(0x0E0, vec![]).unwrap()));
}

#[test]
fn can_error_texts_cover_each_kind() {
    assert_eq!(CanError::InvalidDataLength(12).to_string(), "Invalid data length: 12 bytes");
    assert_eq!(CanError::BusOff.to_string(), "CAN bus off error");
    assert_eq!(CanError::CrcError.to_string(), "CAN CRC error");
    assert_eq!(CanError::IoError("broken pipe".to_string()).to_string(), "CAN I/O error: broken pipe");
    assert_eq!(CanError::InvalidCanId(0x1ABCDEF).to_string(), "Invalid CAN ID: 0x1ABCDEF");
}

fn layout(data_type: CanDataType, start_byte: u8, bit_offset: u8, byte_order: CanByteOrder) -> CanDataConfig {
    CanDataConfig { data_type, start_byte, bit_offset, bit_length: 16, byte_order }
}

#[test]
fn can_decode_integers_in_both_byte_orders() {
    let data = vec![0x12, 0x34, 0x56, 0x78];
    let big = decode_payload(&data, &layout(CanDataType::UInt16, 0, 0, CanByteOrder::BigEndian)).unwrap();
    assert_eq!(big, CanRawValue::Unsigned(0x1234));
    let little = decode_payload(&data, &layout(CanDataType::UInt16, 0, 0, CanByteOrder::LittleEndian)).unwrap();
    assert_eq!(little, CanRawValue::Unsigned(0x3412));
    let word = decode_payload(&data, &layout(CanDataType::UInt32, 0, 0, CanByteOrder::BigEndian)).unwrap();
    assert_eq!(word, CanRawValue::Unsigned(0x1234_5678));
    let signed = decode_payload(&vec![0xFF], &layout(CanDataType::Int8, 0, 0, CanByteOrder::BigEndian)).unwrap();
    assert_eq!(signed, CanRawValue::Signed(-1));
}

#[test]
fn can_decode_bits_text_and_raw_bytes() {
    let data = vec![0b0000_0100, b'h', b'i', 0, b'x'];
    let bit = decode_payload(&data, &layout(CanDataType::Bool, 0, 2, CanByteOrder::BigEndian)).unwrap();
    assert_eq!(bit, CanRawValue::Bool(true));
    let text = decode_payload(&data, &layout(CanDataType::String(4), 1, 0, CanByteOrder::BigEndian)).unwrap();
    assert_eq!(text, CanRawValue::Text(vec![b'h', b'i']));
    let raw = decode_payload(&data, &layout(CanDataType::Raw, 3, 0, CanByteOrder::BigEndian)).unwrap();
    assert_eq!(raw, CanRawValue::Bytes(vec![0, b'x']));
}

#[test]
fn can_decode_errors() {
    let data = vec![1, 2];
    match decode_payload(&data, &layout(CanDataType::UInt8, 5, 0, CanByteOrder::BigEndian)) {
        Err(ComSrvError::InvalidData(m)) => assert_eq!(m, "Start byte 5 exceeds frame data length 2"),
        other => panic!("unexpected {:?}", other),
    }
    match decode_payload(&data, &layout(CanDataType::UInt32, 0, 0, CanByteOrder::BigEndian)) {
        Err(ComSrvError::InvalidData(m)) => assert_eq!(m, "Insufficient data for UInt32"),
        other => panic!("unexpected {:?}", other),
    }
    match decode_payload(&data, &layout(CanDataType::Int64, 0, 0, CanByteOrder::BigEndian)) {
        Err(ComSrvError::InvalidData(m)) => assert_eq!(m, "Unsupported data type: Int64"),
        other => panic!("unexpected {:?}", other),
    }
}

#[test]
fn can_interface_and_bit_rate_parameters() {
    assert_eq!(interface_type_from_param(Some("peak:usb1")), CanInterfaceType::PeakCan("usb1".to_string()));
    assert_eq!(interface_type_from_param(Some("virtual:vcan0")), CanInterfaceType::Virtual("vcan0".to_string()));
    assert_eq!(interface_type_from_param(Some("bogus")), CanInterfaceType::SocketCan("can0".to_string()));
    assert_eq!(interface_type_from_param(None), CanInterfaceType::SocketCan("can0".to_string()));
    assert_eq!(bit_rate_from_param(Some(250000)), CanBitRate::Kbps250);
    assert_eq!(bit_rate_from_param(Some(12345)), CanBitRate::Kbps500);
    assert_eq!(bit_rate_from_param(None), CanBitRate::Kbps500);
}

#[test]
fn can_unique_ids_keep_first_occurrence_order() {
    assert_eq!(unique_can_ids(&vec![0x200, 0x100, 0x200, 0x300, 0x100]), vec![0x200, 0x100, 0x300]);
    assert_eq!(unique_can_ids(&vec![]), Vec::<u32>::new());
}

fn params(interface: Option<ParamValue>) -> CanParams {
    CanParams {
        interface,
        bitrate: None,
        use_extended_id: None,
        use_fd: None,
        timeout_ms: None,
        send_queue_size: None,
        filters: None,
    }
}

#[test]
fn can_plugin_validates_parameters() {
    let plugin = CanPlugin::default();
    assert_eq!(plugin.metadata.id, "can");
    match plugin.validate_config(&params(None)) {
        Err(ComSrvError::ConfigError(m)) => assert_eq!(m, "Missing required parameter: interface"),
        other => panic!("unexpected {:?}", other),
    }
    match plugin.validate_config(&params(Some(ParamValue::Flag(true)))) {
        Err(ComSrvError::ConfigError(m)) => assert_eq!(m, "Parameter 'interface' must be a string"),
        other => panic!("unexpected {:?}", other),
    }
    let mut fd = params(Some(ParamValue::Text("can0".to_string())));
    fd.use_fd = Some(ParamValue::Flag(true));
    fd.bitrate = Some(ParamValue::Unsigned(250000));
    match plugin.validate_config(&fd) {
        Err(ComSrvError::ConfigError(m)) => assert_eq!(m, "CAN FD requires bitrate of at least 500kbps"),
        other => panic!("unexpected {:?}", other),
    }
    fd.bitrate = Some(ParamValue::Unsigned(1000000));
    assert!(plugin.validate_config(&fd).is_ok());
}

#[test]
fn can_plugin_builds_configuration_with_defaults() {
    let plugin = CanPlugin::default();
    let mut p = params(Some(ParamValue::Text("vcan1".to_string())));
    p.timeout_ms = Some(ParamValue::Unsigned(250));
    let config = plugin.config_from_params(&p).unwrap();
    assert_eq!(config.interface, "vcan1");
    assert_eq!(config.bitrate, 500000);
    assert_eq!(config.timeout_ms, 250);
    assert_eq!(config.send_queue_size, 100);
    assert!(!config.use_fd);
    let defaults = CanConfig::default();
    assert_eq!(defaults.interface, "can0");
    assert_eq!(defaults.bitrate, 500000);
}

#[test]
fn can_packet_parser_reports_hex_bytes() {
    let parser = CanPacketParser::new();
    assert_eq!(parser.protocol_name(), "CAN");
    let result = parser.parse_packet(&[0x01, 0xAB, 0x10], "receive");
    assert!(result.success);
    assert_eq!(result.protocol, "CAN");
    assert_eq!(result.direction, "receive");
    assert_eq!(result.hex_data, "01 ab 10");
    assert_eq!(result.description, "CAN parser disabled");
}

fn test_client() -> comsrv::can::client::CanClientBase {
    comsrv::can::client::CanClientBase::new(
        "TestCANClient",
        "can",
        1,
        Some("socketcan:can0"),
        Some(500000),
        Some(1000),
    )
}

fn rpm_mapping() -> comsrv::can::common::CanMessageMapping {
    CanMessageMapping {
        name: "engine_rpm".to_string(),
        display_name: Some("Engine RPM".to_string()),
        can_id: 0x123,
        frame_format: CanFrameFormat::Standard,
        data_config: CanDataConfig {
            data_type: CanDataType::UInt16,
            start_byte: 0,
            bit_offset: 0,
            bit_length: 16,
            byte_order: CanByteOrder::BigEndian,
        },
        scale_bits: 0.25f64.to_bits(),
        offset_bits: 0.0f64.to_bits(),
        unit: Some("RPM".to_string()),
        description: Some("Engine speed".to_string()),
        access_mode: "read".to_string(),
        transmission_rate_bits: 10.0f64.to_bits(),
    }
}

#[test]
fn test_can_client_creation() {
    let client = test_client();
    assert_eq!(client.name(), "TestCANClient");
    assert_eq!(client.bit_rate(), CanBitRate::Kbps500);
    assert_eq!(client.timeout_ms(), 1000);
    assert!(matches!(client.interface_type(), CanInterfaceType::SocketCan(_)));
    assert!(!client.is_running());
}

#[test]
fn test_data_extraction() {
    let client = test_client();
    let frame = CanFrame { id: CanId::Standard(0x123), data: vec![0x12, 0x34, 0x56, 0x78], rtr: false, err: false };
    let mut mapping = rpm_mapping();
    mapping.scale_bits = 1.0f64.to_bits();
    let value = client.extract_data(&frame, &mapping).unwrap();
    assert_eq!(value, CanRawValue::Unsigned(0x1234));
}

#[test]
fn test_message_mapping_management() {
    let mut client = test_client();
    let mut second = rpm_mapping();
    second.name = "oil_temp".to_string();
    client.load_message_mappings(vec![rpm_mapping(), second]);
    let loaded = client.get_message_mappings();
    assert_eq!(loaded.len(), 2);
    assert_eq!(loaded[0].name, "engine_rpm");
    // both mappings use one identifier: the filter keeps it once
    assert_eq!(client.message_filters(), &[0x123u32][..]);
    let found = client.find_mapping("engine_rpm");
    assert!(found.is_some());
    assert_eq!(found.unwrap().can_id, 0x123);
    assert!(client.find_mapping("missing").is_none());
}

#[test]
fn test_statistics() {
    let mut client = test_client();
    let initial = client.get_statistics();
    assert_eq!(initial.messages_sent, 0);
    assert_eq!(initial.messages_received, 0);
    client.update_statistics(5, 10, 1);
    let updated = client.get_statistics();
    assert_eq!(updated.messages_sent, 5);
    assert_eq!(updated.messages_received, 10);
    assert_eq!(updated.error_messages, 1);
    assert!(updated.last_error_time.is_some());
    client.update_statistics(u64::MAX, 0, 0);
    assert_eq!(client.get_statistics().messages_sent, 4);
    client.reset_statistics();
    let reset = client.get_statistics();
    assert_eq!(reset.messages_sent, 0);
    assert_eq!(reset.messages_received, 0);
    assert_eq!(reset.error_messages, 0);
    assert!(reset.last_error_time.is_none());
}

#[test]
fn client_points_and_lifecycle() {
    let mut client = test_client();
    let mut plain = rpm_mapping();
    plain.name = "plain".to_string();
    plain.display_name = None;
    plain.unit = None;
    client.load_message_mappings(vec![rpm_mapping(), plain]);
    let points = client.get_all_points();
    assert_eq!(points.len(), 2);
    assert_eq!(points[0].name, "Engine RPM");
    assert_eq!(points[0].value, "null");
    assert_eq!(points[0].unit, "RPM");
    assert_eq!(points[1].name, "plain");
    assert_eq!(points[1].unit, "");
    let p = client.read_point("engine_rpm").unwrap();
    assert_eq!(p.value, "0");
    assert_eq!(p.description, "Engine speed");
    match client.read_point("nope") {
        Err(ComSrvError::InvalidParameter(m)) => assert_eq!(m, "Point nope not found"),
        _ => panic!("expected an invalid parameter"),
    }
    assert!(client.write_point("plain", "1").is_ok());
    assert!(client.write_point("nope", "1").is_err());
    client.start().unwrap();
    assert!(client.is_running());
    assert!(client.status().connected);
    assert_eq!(client.status().id, "CAN");
    client.stop().unwrap();
    assert!(!client.is_running());
    assert_eq!(client.channel_id(), "CAN");
    assert_eq!(client.protocol_type(), "CAN");
}

#[test]
fn client_defaults_without_parameters() {
    let client = comsrv::can::client::CanClientBase::new("c", "can", 2, Some("bogus"), Some(12345), None);
    assert_eq!(client.bit_rate(), CanBitRate::Kbps500);
    assert_eq!(client.timeout_ms(), 1000);
    assert_eq!(client.interface_type(), &CanInterfaceType::SocketCan("can0".to_string()));
}

#[test]
fn plugin_reads_the_filter_list() {
    let params = CanParams {
        interface: Some(ParamValue::Text("can0".to_string())),
        bitrate: None,
        use_extended_id: Some(ParamValue::Flag(true)),
        use_fd: None,
        timeout_ms: None,
        send_queue_size: None,
        filters: Some(ParamValue::List(vec![
            FilterEntry { id: Some(0x123), mask: Some(0x7FF) },
            FilterEntry { id: Some(0x1_0000_0005), mask: None },
            FilterEntry { id: Some(0x1_0000_0005), mask: Some(0xFF) },
        ])),
    };
    let filters = CanPlugin::default().filters_from_params(&params);
    assert_eq!(filters.len(), 2);
    assert_eq!((filters[0].id, filters[0].mask, filters[0].extended), (0x123, 0x7FF, true));
    assert_eq!((filters[1].id, filters[1].mask), (5, 0xFF));
    assert!(CanPlugin::default().validate_config(&params).is_ok());
}

#[test]
fn plugin_config_template_lists_the_parameters() {
    use_template(&CanPlugin::default().config_template());
}

fn use_template(t: &[comsrv::can::plugin::ConfigTemplate]) {
    assert_eq!(t.len(), 8);
    assert_eq!(t[0].name, "interface");
    assert!(t[0].required);
    assert_eq!(t[0].validation.as_ref().unwrap().pattern.as_deref(), Some("^[a-zA-Z0-9]+$"));
    assert_eq!(t[1].validation.as_ref().unwrap().allowed_values.as_ref().unwrap().len(), 9);
    assert_eq!(t[4].default_value, Some(comsrv::can::plugin::TemplateDefault::EmptyList));
    let timeout = t.iter().find(|p| p.name == "timeout_ms").unwrap();
    assert_eq!(timeout.validation.as_ref().unwrap().min, Some(100));
    assert_eq!(timeout.validation.as_ref().unwrap().max, Some(60000));
}
