use comsrv::combase::adapter_manager::AdapterManager;
use comsrv::combase::protocol_factory::{ModbusTcpFactory, ProtocolFactory};
use comsrv::error::ComSrvError;

#[test]
fn test_protocol_factory_new() {
    let factory = ProtocolFactory::new();
    assert_eq!(factory.channel_count(), 0);
    assert!(factory.is_empty());
    assert!(!factory.supported_protocols().is_empty());
    assert!(factory.is_protocol_supported("ModbusTcp"));
    assert!(factory.is_protocol_supported("ModbusRtu"));
}

#[test]
fn test_supported_protocols() {
    let factory = ProtocolFactory::new();
    let protocols = factory.supported_protocols();
    assert!(protocols.contains(&"ModbusTcp".to_string()));
    assert!(protocols.contains(&"ModbusRtu".to_string()));
}

#[test]
fn test_unregister_protocol_factory() {
    let mut factory = ProtocolFactory::new();

    assert!(factory.is_protocol_supported("ModbusTcp"));
    let removed = factory.unregister_protocol_factory("ModbusTcp");
    assert!(removed.is_ok());
    assert!(!factory.is_protocol_supported("ModbusTcp"));

    let removed_again = factory.unregister_protocol_factory("ModbusTcp");
    assert!(removed_again.is_ok());

    assert!(factory.is_protocol_supported("ModbusRtu"));
    let removed_rtu = factory.unregister_protocol_factory("ModbusRtu");
    assert!(removed_rtu.is_ok());
    assert!(!factory.is_protocol_supported("ModbusRtu"));
}

#[test]
fn test_hot_swappable_protocol_factory() {
    let mut factory = ProtocolFactory::new();

    assert!(factory.is_protocol_supported("ModbusTcp"));

    let _ = factory.unregister_protocol_factory("ModbusTcp");
    assert!(!factory.is_protocol_supported("ModbusTcp"));

    factory.register_protocol_factory(ModbusTcpFactory.protocol_type());
    assert!(factory.is_protocol_supported("ModbusTcp"));
}

#[test]
fn unregister_reports_whether_a_factory_was_there() {
    let mut factory = ProtocolFactory::new();
    assert_eq!(factory.unregister_protocol_factory("ModbusTcp").unwrap(), true);
    assert_eq!(factory.unregister_protocol_factory("ModbusTcp").unwrap(), false);
    assert_eq!(factory.unregister_protocol_factory("Can").unwrap(), false);
}

#[test]
fn unregister_is_refused_while_channels_run_the_protocol() {
    let mut factory = ProtocolFactory::new();
    factory.add_channel(7, "ModbusTcp").unwrap();
    factory.add_channel(3, "ModbusRtu").unwrap();
    factory.add_channel(12, "ModbusTcp").unwrap();
    match factory.unregister_protocol_factory("ModbusTcp") {
        Err(ComSrvError::ConfigError(msg)) => assert_eq!(
            msg,
            "Cannot unregister protocol factory for ModbusTcp: 2 active channels found (IDs: [7, 12]). \
             Please stop and remove all channels of this protocol type first."
        ),
        other => panic!("unexpected {:?}", other),
    }
    assert!(factory.is_protocol_supported("ModbusTcp"));
    match factory.unregister_protocol_factory("ModbusRtu") {
        Err(ComSrvError::ConfigError(msg)) => assert!(msg.contains("1 active channels found (IDs: [3])")),
        other => panic!("unexpected {:?}", other),
    }
}

#[test]
fn channel_numbers_are_taken_once() {
    let mut factory = ProtocolFactory::new();
    factory.add_channel(60, "ModbusTcp").unwrap();
    factory.add_channel(61, "ModbusRtu").unwrap();
    match factory.add_channel(60, "ModbusRtu") {
        Err(ComSrvError::ConfigError(msg)) => assert_eq!(msg, "Channel ID already exists: 60"),
        other => panic!("unexpected {:?}", other),
    }
    assert_eq!(factory.get_channel_ids(), vec![60, 61]);
    assert_eq!(factory.channel_count(), 2);
    assert!(!factory.is_empty());
}

#[test]
fn adapter_manager_routes_by_the_key_protocol() {
    let manager = AdapterManager::new(
        vec!["modbus:pump_speed".to_string(), "can:engine_rpm".to_string(), "plain".to_string()],
        vec!["modbus".to_string()],
    );
    assert_eq!(manager.route("modbus:pump_speed"), Ok("modbus".to_string()));
    assert_eq!(manager.route("modbus:other"), Err("Point not found: modbus:other".to_string()));
    assert_eq!(manager.route("can:engine_rpm"), Err("Adapter not found for protocol: can".to_string()));
    assert_eq!(manager.route("plain"), Err("Adapter not found for protocol: plain".to_string()));
}
