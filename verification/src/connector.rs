//! The device connector: the `Connect` handshake that turns a fresh
//! transport into a tunnel to a port on a device.
//!
//! The transport's owner sends [`connect_request`], reads one reply frame,
//! and holds its payload against [`check_connect_reply`]; on success the
//! transport itself is the tunnel.
use crate::codec::{
    payload_frame_bytes, spec_packet_bytes, spec_payload_packet, PacketType, Protocol,
};
use crate::error::{Error, SpecError};
use crate::messages::{spec_connect_plist, spec_decode_result, Command, ResultMessage};
use crate::plist_values::plist_xml;
use crate::DeviceId;
use vstd::prelude::*;

verus! {

/// Encodes the `Connect` handshake frame for a device and a target port: a
/// plist-payload packet carrying the connect command, with the port
/// pre-swapped to network byte order.  `None` exactly where the encoded
/// command cannot fit a frame's size field (never for this fixed command).
pub fn connect_request(device_id: DeviceId, port: u16) -> (r: Option<Vec<u8>>)
    ensures
        ({
            let payload = plist_xml(spec_connect_plist(port, device_id));
            if 16 + payload.len() <= u32::MAX {
                r matches Some(b) && b@ == spec_packet_bytes(
                    spec_payload_packet(Protocol::Plist, PacketType::PlistPayload, payload),
                )
            } else {
                r is None
            }
        }),
{
    let command = Command::connect(port, device_id);
    proof {
        assert(command.spec_entries() =~= seq![
            ("MessageType"@, crate::plist_values::SpecPlist::Str(command.message_type@)),
            ("ProgName"@, crate::plist_values::SpecPlist::Str(command.prog_name@)),
            (
                "ClientVersionString"@,
                crate::plist_values::SpecPlist::Str(command.client_version_string@),
            ),
            (
                "PortNumber"@,
                crate::plist_values::SpecPlist::Integer(
                    crate::messages::spec_u16_swap_bytes(port) as int,
                ),
            ),
            ("DeviceID"@, crate::plist_values::SpecPlist::Integer(device_id as int)),
        ]);
        assert(command.spec_plist() =~= spec_connect_plist(port, device_id));
    }
    let payload = command.to_bytes();
    payload_frame_bytes(Protocol::Plist, PacketType::PlistPayload, payload)
}

/// Decides the `Connect` handshake from the reply packet's payload: reply
/// code 0 accepts, and the transport is the caller's tunnel; any other
/// code fails with `ConnectionRefused` carrying that exact code; an
/// undecodable reply fails with its protocol error.
pub fn check_connect_reply(data: &[u8]) -> (r: Result<(), Error>)
    ensures
        match spec_decode_result(data@) {
            Ok(code) => if code == 0 {
                r is Ok
            } else {
                r matches Err(e) && e@ == SpecError::ConnectionRefused(code)
            },
            Err(pe) => r matches Err(e) && e@ == SpecError::ProtocolError(pe),
        },
{
    match ResultMessage::from_reader(data) {
        Ok(res) => {
            if res.0 != 0 {
                Err(Error::ConnectionRefused(res.0))
            } else {
                Ok(())
            }
        },
        Err(e) => Err(Error::ProtocolError(e)),
    }
}

} // verus!
