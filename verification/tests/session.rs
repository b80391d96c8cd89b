use std::io::Cursor;
use usbmux_client::codec::{payload_frame_bytes, Packet, PacketType, Protocol};
use usbmux_client::{check_connect_reply, connect_request, DeviceListener, Error, ProtocolError};

fn event_xml(message_type: &str, device_id: u64) -> String {
    let mut s = String::new();
    s.push_str("<?xml version=\"1.0\" encoding=\"UTF-8\"?><plist version=\"1.0\"><dict>");
    s.push_str("<key>DeviceID</key><integer>");
    s.push_str(&device_id.to_string());
    s.push_str("</integer><key>MessageType</key><string>");
    s.push_str(message_type);
    s.push_str("</string></dict></plist>");
    s
}

fn result_xml(code: i64) -> String {
    let mut s = String::new();
    s.push_str("<?xml version=\"1.0\" encoding=\"UTF-8\"?><plist version=\"1.0\"><dict>");
    s.push_str("<key>MessageType</key><string>Result</string><key>Number</key><integer>");
    s.push_str(&code.to_string());
    s.push_str("</integer></dict></plist>");
    s
}

fn plist_frame(payload: &[u8]) -> Vec<u8> {
    payload_frame_bytes(Protocol::Plist, PacketType::PlistPayload, payload.to_vec()).unwrap()
}

#[test]
fn next_event_on_idle_listener_is_none_and_idempotent() {
    let mut listener = DeviceListener::new();
    assert!(listener.next_event(&[]).is_none());
    assert!(listener.next_event(&[]).is_none());
    assert!(listener.next_event(&[]).is_none());
}

#[test]
fn events_from_one_drain_pass_come_back_in_wire_order() {
    let mut buf = plist_frame(event_xml("Detached", 3).as_bytes());
    buf.extend_from_slice(&plist_frame(event_xml("Paired", 5).as_bytes()));
    buf.extend_from_slice(&plist_frame(event_xml("Detached", 9).as_bytes()));
    let mut listener = DeviceListener::new();
    match listener.next_event(&buf) {
        Some(usbmux_client::DeviceEvent::Detached(id)) => assert_eq!(id, 3),
        _ => assert!(false, "expected Detached(3) first"),
    }
    match listener.next_event(&[]) {
        Some(usbmux_client::DeviceEvent::Paired(id)) => assert_eq!(id, 5),
        _ => assert!(false, "expected Paired(5) second"),
    }
    match listener.next_event(&[]) {
        Some(usbmux_client::DeviceEvent::Detached(id)) => assert_eq!(id, 9),
        _ => assert!(false, "expected Detached(9) third"),
    }
    assert!(listener.next_event(&[]).is_none());
}

#[test]
fn undecodable_frame_is_skipped_not_fatal() {
    let mut buf = plist_frame(&[0xDE, 0xAD, 0xBE, 0xEF]);
    buf.extend_from_slice(&plist_frame(event_xml("Paired", 7).as_bytes()));
    let mut listener = DeviceListener::new();
    match listener.next_event(&buf) {
        Some(usbmux_client::DeviceEvent::Paired(id)) => assert_eq!(id, 7),
        _ => assert!(false, "expected the good frame's event"),
    }
    assert!(listener.next_event(&[]).is_none());
}

#[test]
fn binary_protocol_frames_are_not_decoded() {
    let mut buf = payload_frame_bytes(
        Protocol::Binary,
        PacketType::Listen,
        event_xml("Paired", 1).as_bytes().to_vec(),
    )
    .unwrap();
    buf.extend_from_slice(&plist_frame(event_xml("Detached", 2).as_bytes()));
    let mut listener = DeviceListener::new();
    match listener.next_event(&buf) {
        Some(usbmux_client::DeviceEvent::Detached(id)) => assert_eq!(id, 2),
        _ => assert!(false, "expected only the plist frame's event"),
    }
    assert!(listener.next_event(&[]).is_none());
}

#[test]
fn truncated_tail_frame_waits_for_its_remainder() {
    let mut buf = plist_frame(event_xml("Detached", 4).as_bytes());
    let tail = plist_frame(event_xml("Paired", 6).as_bytes());
    buf.extend_from_slice(&tail[..tail.len() - 3]);
    let mut listener = DeviceListener::new();
    match listener.next_event(&buf) {
        Some(usbmux_client::DeviceEvent::Detached(id)) => assert_eq!(id, 4),
        _ => assert!(false, "expected the complete frame's event"),
    }
    assert!(listener.next_event(&[]).is_none());
    match listener.next_event(&tail[tail.len() - 3..]) {
        Some(usbmux_client::DeviceEvent::Paired(id)) => assert_eq!(id, 6),
        _ => assert!(false, "expected the completed tail frame's event"),
    }
    assert!(listener.next_event(&[]).is_none());
}

#[test]
fn frame_split_across_calls_is_reassembled() {
    let frame = plist_frame(event_xml("Paired", 8).as_bytes());
    let (a, b) = frame.split_at(7);
    let mut listener = DeviceListener::new();
    assert!(listener.next_event(a).is_none());
    match listener.next_event(b) {
        Some(usbmux_client::DeviceEvent::Paired(id)) => assert_eq!(id, 8),
        _ => assert!(false, "expected the reassembled frame's event"),
    }
    assert!(listener.next_event(&[]).is_none());
}

#[test]
fn listen_request_frames_the_listen_command() {
    let frame = DeviceListener::listen_request().unwrap();
    let (packet, used) = Packet::from_reader(&frame, 0).unwrap();
    assert_eq!(used, frame.len());
    assert_eq!(packet.protocol, Protocol::Plist);
    assert_eq!(packet.packet_type, PacketType::PlistPayload);
    assert_eq!(packet.tag, 0);
    let value = plist::Value::from_reader(Cursor::new(&packet.data[..])).unwrap();
    let dict = value.as_dictionary().unwrap();
    assert_eq!(dict.get("MessageType").and_then(plist::Value::as_string), Some("Listen"));
}

#[test]
fn connect_request_frames_the_connect_command() {
    let frame = connect_request(3, 2345).unwrap();
    let (packet, _) = Packet::from_reader(&frame, 0).unwrap();
    assert_eq!(packet.protocol, Protocol::Plist);
    assert_eq!(packet.packet_type, PacketType::PlistPayload);
    let value = plist::Value::from_reader(Cursor::new(&packet.data[..])).unwrap();
    let dict = value.as_dictionary().unwrap();
    assert_eq!(dict.get("MessageType").and_then(plist::Value::as_string), Some("Connect"));
    assert_eq!(dict.get("PortNumber").and_then(plist::Value::as_unsigned_integer), Some(10505));
    assert_eq!(dict.get("DeviceID").and_then(plist::Value::as_unsigned_integer), Some(3));
}

#[test]
fn zero_reply_code_accepts_both_handshakes() {
    let reply = result_xml(0);
    assert!(DeviceListener::check_listen_reply(reply.as_bytes()).is_ok());
    assert!(check_connect_reply(reply.as_bytes()).is_ok());
}

#[test]
fn nonzero_reply_code_fails_listen_with_that_code() {
    let reply = result_xml(2);
    match DeviceListener::check_listen_reply(reply.as_bytes()) {
        Err(Error::FailedToListen(code)) => assert_eq!(code, 2),
        _ => assert!(false, "expected FailedToListen(2)"),
    }
    let reply = result_xml(6);
    match DeviceListener::check_listen_reply(reply.as_bytes()) {
        Err(Error::FailedToListen(code)) => assert_eq!(code, 6),
        _ => assert!(false, "expected FailedToListen(6)"),
    }
}

#[test]
fn nonzero_reply_code_fails_connect_with_that_code() {
    let reply = result_xml(3);
    match check_connect_reply(reply.as_bytes()) {
        Err(Error::ConnectionRefused(code)) => assert_eq!(code, 3),
        _ => assert!(false, "expected ConnectionRefused(3)"),
    }
}

#[test]
fn undecodable_reply_fails_the_handshake_with_its_protocol_error() {
    let garbage = [0x00u8, 0x01, 0x02];
    assert!(matches!(
        DeviceListener::check_listen_reply(&garbage),
        Err(Error::ProtocolError(ProtocolError::InvalidPlistEntry))
    ));
    assert!(matches!(
        check_connect_reply(&garbage),
        Err(Error::ProtocolError(ProtocolError::InvalidPlistEntry))
    ));
}
