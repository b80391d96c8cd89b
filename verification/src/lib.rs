//! Client-side implementation of the usbmux wire protocol: fixed binary
//! packet framing, plist-encoded command and event payloads, a device-event
//! decoder, and the handshake logic behind the device listener and connector.
use vstd::prelude::*;

pub mod codec;
pub mod connector;
pub mod error;
pub mod listener;
pub mod messages;
pub mod plist_values;

pub use codec::{Packet, PacketType, Protocol, ReplyCode};
pub use connector::{check_connect_reply, connect_request};
pub use error::{Error, ProtocolError};
pub use listener::DeviceListener;
pub use messages::{
    Command, DeviceAttachedInfo, DeviceConnectionType, DeviceEvent, MessageType, ProductType,
    ResultMessage,
};

verus! {

/// Logical identifier of an attached device.
pub type DeviceId = u64;

} // verus!
