use usbmux_client::codec::{payload_frame_bytes, Packet, PacketType, Protocol, ReplyCode};
use usbmux_client::error::ProtocolError;

fn header(size: u32, proto: u32, ptype: u32, tag: u32) -> Vec<u8> {
    let mut out = Vec::new();
    out.extend_from_slice(&size.to_le_bytes());
    out.extend_from_slice(&proto.to_le_bytes());
    out.extend_from_slice(&ptype.to_le_bytes());
    out.extend_from_slice(&tag.to_le_bytes());
    out
}

#[test]
fn packet_round_trips_with_payload() {
    let p = Packet::new(Protocol::Plist, PacketType::PlistPayload, 7, vec![1, 2, 3]);
    assert_eq!(p.size, 19);
    let mut buf: Vec<u8> = Vec::new();
    p.write_into(&mut buf);
    assert_eq!(buf.len(), 19);
    let (q, used) = Packet::from_reader(&buf, 0).unwrap();
    assert_eq!(used, 19);
    assert_eq!(q.size, 19);
    assert_eq!(q.protocol, Protocol::Plist);
    assert_eq!(q.packet_type, PacketType::PlistPayload);
    assert_eq!(q.tag, 7);
    assert_eq!(q.data, vec![1, 2, 3]);
}

#[test]
fn packet_round_trips_empty_payload() {
    let p = Packet::new(Protocol::Binary, PacketType::Listen, 0, vec![]);
    let mut buf: Vec<u8> = Vec::new();
    p.write_into(&mut buf);
    assert_eq!(buf.len(), 16);
    let (q, used) = Packet::from_reader(&buf, 0).unwrap();
    assert_eq!(used, 16);
    assert_eq!(q.size, 16);
    assert_eq!(q.protocol, Protocol::Binary);
    assert_eq!(q.packet_type, PacketType::Listen);
    assert_eq!(q.tag, 0);
    assert!(q.data.is_empty());
}

#[test]
fn packet_round_trips_every_known_type() {
    let types = [
        PacketType::Result,
        PacketType::Connect,
        PacketType::Listen,
        PacketType::DeviceAdd,
        PacketType::DeviceRemove,
        PacketType::PlistPayload,
    ];
    for t in types {
        let p = Packet::new(Protocol::Plist, t, 9, vec![0xAB]);
        let mut buf: Vec<u8> = Vec::new();
        p.write_into(&mut buf);
        let (q, _) = Packet::from_reader(&buf, 0).unwrap();
        assert_eq!(q.packet_type, t);
    }
}

#[test]
fn undersized_total_size_is_rejected_not_wrapped() {
    let buf = header(8, 1, 8, 0);
    let r = Packet::from_reader(&buf, 0);
    assert!(matches!(r, Err(ProtocolError::InvalidPacketSize(8))));
    let buf = header(0, 1, 8, 0);
    let r = Packet::from_reader(&buf, 0);
    assert!(matches!(r, Err(ProtocolError::InvalidPacketSize(0))));
}

#[test]
fn unknown_protocol_and_packet_type_keep_their_raw_value() {
    let buf = header(16, 2, 8, 0);
    assert!(matches!(Packet::from_reader(&buf, 0), Err(ProtocolError::InvalidProtocol(2))));
    let buf = header(16, 1, 6, 0);
    assert!(matches!(Packet::from_reader(&buf, 0), Err(ProtocolError::InvalidPacketType(6))));
    let buf = header(16, 1, 7, 0);
    assert!(matches!(Packet::from_reader(&buf, 0), Err(ProtocolError::InvalidPacketType(7))));
}

#[test]
fn short_buffers_are_truncated_frames() {
    let buf = [0u8; 10];
    assert!(matches!(Packet::from_reader(&buf, 0), Err(ProtocolError::Truncated)));
    let buf = header(36, 1, 8, 0);
    assert!(matches!(Packet::from_reader(&buf, 0), Err(ProtocolError::Truncated)));
}

#[test]
fn frames_parse_in_sequence_at_their_offsets() {
    let mut buf: Vec<u8> = Vec::new();
    Packet::new(Protocol::Binary, PacketType::Listen, 1, vec![]).write_into(&mut buf);
    Packet::new(Protocol::Plist, PacketType::PlistPayload, 2, vec![9, 9]).write_into(&mut buf);
    let (p1, mid) = Packet::from_reader(&buf, 0).unwrap();
    assert_eq!(p1.tag, 1);
    let (p2, end) = Packet::from_reader(&buf, mid).unwrap();
    assert_eq!(p2.tag, 2);
    assert_eq!(p2.data, vec![9, 9]);
    assert_eq!(end, buf.len());
    assert!(matches!(Packet::from_reader(&buf, end), Err(ProtocolError::Truncated)));
}

#[test]
fn payload_frame_wraps_payload_with_header() {
    let frame = payload_frame_bytes(Protocol::Plist, PacketType::PlistPayload, vec![5, 6, 7])
        .unwrap();
    let (p, used) = Packet::from_reader(&frame, 0).unwrap();
    assert_eq!(used, frame.len());
    assert_eq!(p.size, 19);
    assert_eq!(p.tag, 0);
    assert_eq!(p.data, vec![5, 6, 7]);
}

#[test]
fn reply_codes_decode_exactly() {
    assert_eq!(ReplyCode::try_from(0), Ok(ReplyCode::Success));
    assert_eq!(ReplyCode::try_from(1), Ok(ReplyCode::BadCommand));
    assert_eq!(ReplyCode::try_from(2), Ok(ReplyCode::BadDevice));
    assert_eq!(ReplyCode::try_from(3), Ok(ReplyCode::ConnectionRefused));
    assert_eq!(ReplyCode::try_from(6), Ok(ReplyCode::BadVersion));
    assert_eq!(ReplyCode::try_from(4), Err(ProtocolError::InvalidReplyCode(4)));
    assert_eq!(ReplyCode::try_from(5), Err(ProtocolError::InvalidReplyCode(5)));
    assert_eq!(ReplyCode::try_from(7), Err(ProtocolError::InvalidReplyCode(7)));
    assert_eq!(ReplyCode::Success.as_u32(), 0);
    assert_eq!(ReplyCode::BadVersion.as_u32(), 6);
}

#[test]
fn header_words_are_little_endian() {
    let p = Packet::new(Protocol::Plist, PacketType::Result, 0x01020304, vec![]);
    let mut buf: Vec<u8> = Vec::new();
    p.write_into(&mut buf);
    assert_eq!(&buf[0..4], &[16, 0, 0, 0]);
    assert_eq!(&buf[4..8], &[1, 0, 0, 0]);
    assert_eq!(&buf[8..12], &[1, 0, 0, 0]);
    assert_eq!(&buf[12..16], &[4, 3, 2, 1]);
}
