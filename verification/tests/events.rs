use std::io::Cursor;
use usbmux_client::{
    Command, DeviceAttachedInfo, DeviceConnectionType, DeviceEvent, MessageType, ProductType,
    ProtocolError, ResultMessage,
};

const DETACHED_XML: &str = "<?xml version=\"1.0\" encoding=\"UTF-8\"?><plist version=\"1.0\"><dict>\
         <key>DeviceID</key><integer>3</integer>\
         <key>MessageType</key><string>Detached</string>\
         </dict></plist>";

const PAIRED_XML: &str = "<?xml version=\"1.0\" encoding=\"UTF-8\"?><plist version=\"1.0\"><dict>\
         <key>DeviceID</key><integer>3</integer>\
         <key>MessageType</key><string>Paired</string>\
         </dict></plist>";

const SUCCESS_RESULT_XML: &str = "<?xml version=\"1.0\" encoding=\"UTF-8\"?><plist version=\"1.0\"><dict>\
         <key>MessageType</key><string>Result</string>\
         <key>Number</key><integer>0</integer>\
         </dict></plist>";

const ATTACHED_XML: &str = "<?xml version=\"1.0\" encoding=\"UTF-8\"?><plist version=\"1.0\"><dict>\
         <key>DeviceID</key><integer>3</integer>\
         <key>MessageType</key><string>Attached</string>\
         <key>Properties</key><dict>\
         <key>ConnectionType</key><string>USB</string>\
         <key>DeviceID</key><integer>3</integer>\
         <key>LocationID</key><integer>0</integer>\
         <key>ProductID</key><integer>4779</integer>\
         <key>SerialNumber</key><string>00001011-000A111E0111001E</string>\
         </dict></dict></plist>";

fn value_for_xml(xml: &str) -> plist::Value {
    plist::Value::from_reader(Cursor::new(xml.as_bytes())).unwrap()
}

#[test]
fn it_decodes_plists() {
    let r = value_for_xml(DETACHED_XML);
    match DeviceEvent::try_from(&r) {
        Ok(DeviceEvent::Detached(device_id)) => assert_eq!(device_id, 3),
        _ => assert!(false, "Invalid DeviceEvent"),
    }
    let r = value_for_xml(PAIRED_XML);
    match DeviceEvent::try_from(&r) {
        Ok(DeviceEvent::Paired(device_id)) => assert_eq!(device_id, 3),
        _ => assert!(false, "Invalid DeviceEvent"),
    }
    let r = value_for_xml(SUCCESS_RESULT_XML);
    let msg = ResultMessage::try_from(&r);
    assert!(msg.is_ok());
    println!("Test: {:?}", msg);
}

#[test]
fn it_decodes_attached() {
    let r = value_for_xml(ATTACHED_XML);
    let msg = DeviceEvent::try_from(&r);
    assert!(msg.is_ok());
    match DeviceEvent::try_from(&r) {
        Ok(DeviceEvent::Attached(device_info)) => {
            assert_eq!(device_info.device_id, 3);
            assert_eq!(device_info.connection_type, DeviceConnectionType::USB);
            assert_eq!(device_info.location_id, 0);
            assert_eq!(device_info.product_type, ProductType::IPad);
            assert_eq!(device_info.identifier, "00001011-000A111E0111001E");
        },
        _ => assert!(false, "Invalid DeviceEvent"),
    }
}

#[test]
fn it_encodes_command() {
    let mut command = Command::new("Connect");
    command.port_number = Some(12345);
    command.device_id = Some(16689);
    let bytes = command.to_bytes();
    let value = plist::Value::from_reader(Cursor::new(&bytes[..])).unwrap();
    let dict = value.as_dictionary().unwrap();
    assert_eq!(dict.get("MessageType").and_then(plist::Value::as_string), Some("Connect"));
    assert_eq!(dict.get("ProgName").and_then(plist::Value::as_string), Some("Peertalk Example"));
    assert_eq!(dict.get("ClientVersionString").and_then(plist::Value::as_string), Some("1"));
    assert_eq!(dict.get("PortNumber").and_then(plist::Value::as_unsigned_integer), Some(12345));
    assert_eq!(dict.get("DeviceID").and_then(plist::Value::as_unsigned_integer), Some(16689));
}

#[test]
fn listen_command_has_no_port_or_device() {
    let command = Command::listen();
    let bytes = command.to_bytes();
    let value = plist::Value::from_reader(Cursor::new(&bytes[..])).unwrap();
    let dict = value.as_dictionary().unwrap();
    assert_eq!(dict.get("MessageType").and_then(plist::Value::as_string), Some("Listen"));
    assert!(dict.get("PortNumber").is_none());
    assert!(dict.get("DeviceID").is_none());
}

#[test]
fn connect_command_stores_port_byte_swapped() {
    let command = Command::connect(2345, 3);
    assert_eq!(command.port_number, Some(2345u16.swap_bytes()));
    assert_eq!(command.port_number, Some(10505));
    assert_eq!(command.device_id, Some(3));
    let bytes = command.to_bytes();
    let value = plist::Value::from_reader(Cursor::new(&bytes[..])).unwrap();
    let dict = value.as_dictionary().unwrap();
    assert_eq!(dict.get("PortNumber").and_then(plist::Value::as_unsigned_integer), Some(10505));
    assert_eq!(dict.get("DeviceID").and_then(plist::Value::as_unsigned_integer), Some(3));
}

#[test]
fn message_type_decodes_known_strings_only() {
    let v = plist::Value::String("Paired".to_string());
    assert_eq!(MessageType::try_from(&v), Ok(MessageType::Paired));
    let v = plist::Value::String("Result".to_string());
    assert_eq!(MessageType::try_from(&v), Ok(MessageType::Result));
    let v = plist::Value::String("Attached".to_string());
    assert_eq!(MessageType::try_from(&v), Ok(MessageType::Attached));
    let v = plist::Value::String("Detached".to_string());
    assert_eq!(MessageType::try_from(&v), Ok(MessageType::Detached));
    let v = plist::Value::String("Foo".to_string());
    assert_eq!(
        MessageType::try_from(&v),
        Err(ProtocolError::InvalidMessageType("Foo".to_string()))
    );
    let v = plist::Value::Integer(plist::Integer::from(1u64));
    assert_eq!(
        MessageType::try_from(&v),
        Err(ProtocolError::InvalidMessageType("Invalid PLIST type".to_string()))
    );
}

#[test]
fn product_type_classifies_usb_product_ids() {
    assert_eq!(ProductType::from(0x12A8), ProductType::IPhone);
    assert_eq!(ProductType::from(0x12AA), ProductType::IPodTouch);
    assert_eq!(ProductType::from(0x12AB), ProductType::IPad);
    assert_eq!(ProductType::from(0x9999), ProductType::Unknown(0x9999));
}

#[test]
fn non_dictionary_event_root_is_invalid_plist_entry() {
    let xml = "<?xml version=\"1.0\"?><plist version=\"1.0\"><string>hi</string></plist>";
    let v = value_for_xml(xml);
    assert!(matches!(DeviceEvent::try_from(&v), Err(ProtocolError::InvalidPlistEntry)));
    assert!(matches!(ResultMessage::try_from(&v), Err(ProtocolError::InvalidPlistEntry)));
}

#[test]
fn missing_device_id_names_its_key() {
    let xml = "<?xml version=\"1.0\"?><plist version=\"1.0\"><dict>\
         <key>MessageType</key><string>Detached</string>\
         </dict></plist>";
    let v = value_for_xml(xml);
    assert!(matches!(
        DeviceEvent::try_from(&v),
        Err(ProtocolError::InvalidPlistEntryForKey("DeviceID"))
    ));
}

#[test]
fn result_message_type_is_not_a_device_event() {
    let xml = "<?xml version=\"1.0\"?><plist version=\"1.0\"><dict>\
         <key>DeviceID</key><integer>1</integer>\
         <key>MessageType</key><string>Result</string>\
         </dict></plist>";
    let v = value_for_xml(xml);
    match DeviceEvent::try_from(&v) {
        Err(ProtocolError::InvalidMessageType(t)) => assert_eq!(t, "Result"),
        _ => assert!(false, "Invalid DeviceEvent"),
    }
}

#[test]
fn attached_without_properties_names_the_properties_key() {
    let xml = "<?xml version=\"1.0\"?><plist version=\"1.0\"><dict>\
         <key>DeviceID</key><integer>3</integer>\
         <key>MessageType</key><string>Attached</string>\
         </dict></plist>";
    let v = value_for_xml(xml);
    assert!(matches!(
        DeviceEvent::try_from(&v),
        Err(ProtocolError::InvalidPlistEntryForKey("Properties"))
    ));
}

#[test]
fn attached_info_missing_serial_names_its_key() {
    let xml = "<?xml version=\"1.0\"?><plist version=\"1.0\"><dict>\
         <key>ConnectionType</key><string>USB</string>\
         <key>DeviceID</key><integer>3</integer>\
         <key>LocationID</key><integer>0</integer>\
         <key>ProductID</key><integer>4779</integer>\
         </dict></plist>";
    let v = value_for_xml(xml);
    assert!(matches!(
        DeviceAttachedInfo::try_from(&v),
        Err(ProtocolError::InvalidPlistEntryForKey("SerialNumber"))
    ));
}

#[test]
fn non_usb_connection_type_is_kept_verbatim() {
    let v = plist::Value::String("Network".to_string());
    match DeviceConnectionType::try_from(&v) {
        Ok(DeviceConnectionType::Unknown(s)) => assert_eq!(s, "Network"),
        _ => assert!(false, "expected Unknown connection type"),
    }
    let v = plist::Value::Integer(plist::Integer::from(1u64));
    assert!(matches!(
        DeviceConnectionType::try_from(&v),
        Err(ProtocolError::InvalidPlistEntryForKey("ConnectionType"))
    ));
}

#[test]
fn result_message_without_number_names_its_key() {
    let xml = "<?xml version=\"1.0\"?><plist version=\"1.0\"><dict>\
         <key>MessageType</key><string>Result</string>\
         </dict></plist>";
    let v = value_for_xml(xml);
    assert!(matches!(
        ResultMessage::try_from(&v),
        Err(ProtocolError::InvalidPlistEntryForKey("Number"))
    ));
}

#[test]
fn from_vec_decodes_bytes_and_rejects_garbage() {
    match DeviceEvent::from_vec(DETACHED_XML.as_bytes().to_vec()) {
        Ok(DeviceEvent::Detached(device_id)) => assert_eq!(device_id, 3),
        _ => assert!(false, "Invalid DeviceEvent"),
    }
    let r = DeviceEvent::from_vec(vec![0xFF, 0x00, 0x12]);
    assert!(matches!(r, Err(ProtocolError::InvalidPlistEntry)));
}

#[test]
fn result_message_from_reader_reads_the_code() {
    let msg = ResultMessage::from_reader(SUCCESS_RESULT_XML.as_bytes()).unwrap();
    assert_eq!(msg.0, 0);
    let xml = "<?xml version=\"1.0\"?><plist version=\"1.0\"><dict>\
         <key>Number</key><integer>-5</integer>\
         </dict></plist>";
    let msg = ResultMessage::from_reader(xml.as_bytes()).unwrap();
    assert_eq!(msg.0, -5);
}
