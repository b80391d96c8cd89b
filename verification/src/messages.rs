//! Typed views over the plist value tree: the outbound `Command`, the
//! inbound `ResultMessage`, and the device events (`DeviceEvent`,
//! `DeviceAttachedInfo`) with their field validation.
use crate::error::{ProtocolError, SpecProtocolError};
use crate::plist_values::{
    dict_model, dictionary_get, dictionary_insert, dictionary_new, lemma_dict_get_absent,
    no_opaque, parse_plist,
    parsed_plist, plist_to_xml, plist_xml, pv_model, spec_dict_get, value_as_dictionary,
    value_as_signed_integer, value_as_string, value_as_unsigned_integer, value_from_dictionary,
    value_from_string, value_from_u64, SpecPlist,
};
use crate::DeviceId;
use vstd::prelude::*;

verus! {

/// Compares two strings by contents.
fn str_is(s: &str, t: &str) -> (r: bool)
    ensures
        r == (s@ == t@),
{
    let a: String = s.to_owned();
    let b: String = t.to_owned();
    a == b
}

/// The `u64` stored under `key`, if the key holds an integer in `u64`
/// range.
pub open spec fn spec_opt_u64(entries: Seq<(Seq<char>, SpecPlist)>, key: Seq<char>) -> Option<
    u64,
> {
    match spec_dict_get(entries, key) {
        Some(SpecPlist::Integer(n)) => if 0 <= n <= u64::MAX {
            Some(n as u64)
        } else {
            None
        },
        _ => None,
    }
}

/// The `i64` stored under `key`, if the key holds an integer in `i64`
/// range.
pub open spec fn spec_opt_i64(entries: Seq<(Seq<char>, SpecPlist)>, key: Seq<char>) -> Option<
    i64,
> {
    match spec_dict_get(entries, key) {
        Some(SpecPlist::Integer(n)) => if i64::MIN <= n <= i64::MAX {
            Some(n as i64)
        } else {
            None
        },
        _ => None,
    }
}

/// The string stored under `key`, if the key holds a string.
pub open spec fn spec_opt_string(entries: Seq<(Seq<char>, SpecPlist)>, key: Seq<char>) -> Option<
    Seq<char>,
> {
    match spec_dict_get(entries, key) {
        Some(SpecPlist::Str(s)) => Some(s),
        _ => None,
    }
}

/// Looks up an unsigned integer field of a dictionary.
fn get_u64(d: &plist::Dictionary, key: &str) -> (r: Option<u64>)
    ensures
        r == spec_opt_u64(dict_model(*d), key@),
{
    match dictionary_get(d, key) {
        Some(v) => value_as_unsigned_integer(v),
        None => None,
    }
}

/// Looks up a signed integer field of a dictionary.
fn get_i64(d: &plist::Dictionary, key: &str) -> (r: Option<i64>)
    ensures
        r == spec_opt_i64(dict_model(*d), key@),
{
    match dictionary_get(d, key) {
        Some(v) => value_as_signed_integer(v),
        None => None,
    }
}

/// Looks up a string field of a dictionary.
fn get_string(d: &plist::Dictionary, key: &str) -> (r: Option<String>)
    ensures
        match spec_opt_string(dict_model(*d), key@) {
            Some(s) => r matches Some(rs) && rs@ == s,
            None => r is None,
        },
{
    match dictionary_get(d, key) {
        Some(v) => match value_as_string(v) {
            Some(s) => Some(s.to_owned()),
            None => None,
        },
        None => None,
    }
}

/// The message types a device-event plist may carry.
#[derive(Debug, PartialEq, Eq, Structural, Copy, Clone)]
pub enum MessageType {
    /// Device was paired to the host.
    Paired,
    /// Reply to a handshake command.
    Result,
    /// Device was unplugged from the host.
    Detached,
    /// Device was plugged into the host.
    Attached,
}

/// Which message type a plist value decodes to: one of the four known
/// strings; any other string or a non-string is invalid.
pub open spec fn spec_message_type_of(m: SpecPlist) -> Result<MessageType, SpecProtocolError> {
    match m {
        SpecPlist::Str(s) => if s == "Paired"@ {
            Ok(MessageType::Paired)
        } else if s == "Result"@ {
            Ok(MessageType::Result)
        } else if s == "Attached"@ {
            Ok(MessageType::Attached)
        } else if s == "Detached"@ {
            Ok(MessageType::Detached)
        } else {
            Err(SpecProtocolError::InvalidMessageType(s))
        },
        _ => Err(SpecProtocolError::InvalidMessageType("Invalid PLIST type"@)),
    }
}

impl MessageType {
    /// Decodes a plist value into a message type, exactly as
    /// [`spec_message_type_of`] says.
    pub fn try_from(value: &plist::Value) -> (r: Result<MessageType, ProtocolError>)
        ensures
            match r {
                Ok(mt) => spec_message_type_of(pv_model(*value)) == Ok::<
                    MessageType,
                    SpecProtocolError,
                >(mt),
                Err(e) => spec_message_type_of(pv_model(*value)) == Err::<
                    MessageType,
                    SpecProtocolError,
                >(e@),
            },
    {
        match value_as_string(value) {
            Some(s) => {
                if str_is(s, "Paired") {
                    Ok(MessageType::Paired)
                } else if str_is(s, "Result") {
                    Ok(MessageType::Result)
                } else if str_is(s, "Attached") {
                    Ok(MessageType::Attached)
                } else if str_is(s, "Detached") {
                    Ok(MessageType::Detached)
                } else {
                    Err(ProtocolError::InvalidMessageType(s.to_owned()))
                }
            },
            None => Err(ProtocolError::InvalidMessageType("Invalid PLIST type".to_owned())),
        }
    }
}

/// Product type of a connected device, derived from its USB product id.
#[derive(Debug, Clone, Copy, PartialEq, Eq, Structural)]
pub enum ProductType {
    /// Any iPhone that's connected.
    IPhone,
    /// iPod touch.
    IPodTouch,
    /// iPad/iPad Pro.
    IPad,
    /// A product id this client has no name for.
    Unknown(u16),
}

impl ProductType {
    /// The product type a USB product id maps to.
    pub open spec fn spec_from(product_id: u16) -> ProductType {
        if product_id == 0x12A8 {
            ProductType::IPhone
        } else if product_id == 0x12AA {
            ProductType::IPodTouch
        } else if product_id == 0x12AB {
            ProductType::IPad
        } else {
            ProductType::Unknown(product_id)
        }
    }

    /// Classifies a USB product id.
    pub fn from(product_id: u16) -> (r: ProductType)
        ensures
            r == ProductType::spec_from(product_id),
    {
        match product_id {
            0x12A8 => ProductType::IPhone,
            0x12AA => ProductType::IPodTouch,
            0x12AB => ProductType::IPad,
            p => ProductType::Unknown(p),
        }
    }
}

/// How a device is connected to the host.
#[derive(Debug, PartialEq)]
pub enum DeviceConnectionType {
    /// USB connection.
    USB,
    /// Any other connection-type string the muxer may report.
    Unknown(String),
}

/// Mathematical model of a [`DeviceConnectionType`].
pub enum SpecConnectionType {
    USB,
    Unknown(Seq<char>),
}

impl View for DeviceConnectionType {
    type V = SpecConnectionType;

    open spec fn view(&self) -> SpecConnectionType {
        match self {
            DeviceConnectionType::USB => SpecConnectionType::USB,
            DeviceConnectionType::Unknown(s) => SpecConnectionType::Unknown(s@),
        }
    }
}

/// Which connection type a plist value decodes to: the string `USB`, any
/// other string verbatim, or an error for a non-string.
pub open spec fn spec_connection_type_of(m: SpecPlist) -> Result<
    SpecConnectionType,
    SpecProtocolError,
> {
    match m {
        SpecPlist::Str(s) => if s == "USB"@ {
            Ok(SpecConnectionType::USB)
        } else {
            Ok(SpecConnectionType::Unknown(s))
        },
        _ => Err(SpecProtocolError::InvalidPlistEntryForKey("ConnectionType"@)),
    }
}

impl DeviceConnectionType {
    /// Decodes a plist value into a connection type, exactly as
    /// [`spec_connection_type_of`] says.
    pub fn try_from(value: &plist::Value) -> (r: Result<DeviceConnectionType, ProtocolError>)
        ensures
            match r {
                Ok(ct) => spec_connection_type_of(pv_model(*value)) == Ok::<
                    SpecConnectionType,
                    SpecProtocolError,
                >(ct@),
                Err(e) => spec_connection_type_of(pv_model(*value)) == Err::<
                    SpecConnectionType,
                    SpecProtocolError,
                >(e@),
            },
    {
        match value_as_string(value) {
            Some(s) => {
                if str_is(s, "USB") {
                    Ok(DeviceConnectionType::USB)
                } else {
                    Ok(DeviceConnectionType::Unknown(s.to_owned()))
                }
            },
            None => Err(ProtocolError::InvalidPlistEntryForKey("ConnectionType")),
        }
    }
}

/// Info about an attached device.
#[derive(Debug)]
pub struct DeviceAttachedInfo {
    /// Type of connection the device is using.
    pub connection_type: DeviceConnectionType,
    /// ID of the device.
    pub device_id: DeviceId,
    /// Location id reported by the muxer.
    pub location_id: u64,
    /// Product type of the device.
    pub product_type: ProductType,
    /// Device's identifier/serial number.
    pub identifier: String,
}

/// Mathematical model of a [`DeviceAttachedInfo`].
#[verifier::ext_equal]
pub struct SpecAttachedInfo {
    pub connection_type: SpecConnectionType,
    pub device_id: u64,
    pub location_id: u64,
    pub product_type: ProductType,
    pub identifier: Seq<char>,
}

impl View for DeviceAttachedInfo {
    type V = SpecAttachedInfo;

    open spec fn view(&self) -> SpecAttachedInfo {
        SpecAttachedInfo {
            connection_type: self.connection_type@,
            device_id: self.device_id,
            location_id: self.location_id,
            product_type: self.product_type,
            identifier: self.identifier@,
        }
    }
}

/// What the `Properties` dictionary of an attach event decodes to.  The
/// root must be a dictionary; each field must be present with the right
/// type, the first violation (in the order below) naming the offending key.
pub open spec fn spec_attached_info_of(m: SpecPlist) -> Result<
    SpecAttachedInfo,
    SpecProtocolError,
> {
    match m {
        SpecPlist::Dict(entries) => {
            let ct = match spec_dict_get(entries, "ConnectionType"@) {
                Some(cv) => match spec_connection_type_of(cv) {
                    Ok(c) => Some(c),
                    Err(_) => None,
                },
                None => None,
            };
            match ct {
                None => Err(SpecProtocolError::InvalidPlistEntryForKey("ConnectionType"@)),
                Some(connection_type) => match spec_opt_u64(entries, "DeviceID"@) {
                    None => Err(SpecProtocolError::InvalidPlistEntryForKey("DeviceID"@)),
                    Some(device_id) => match spec_opt_u64(entries, "LocationID"@) {
                        None => Err(SpecProtocolError::InvalidPlistEntryForKey("LocationID"@)),
                        Some(location_id) => match spec_opt_u64(entries, "ProductID"@) {
                            None => Err(SpecProtocolError::InvalidPlistEntryForKey("ProductID"@)),
                            Some(product_id) => match spec_opt_string(entries, "SerialNumber"@) {
                                None => Err(
                                    SpecProtocolError::InvalidPlistEntryForKey("SerialNumber"@),
                                ),
                                Some(identifier) => Ok(
                                    (SpecAttachedInfo {
                                        connection_type,
                                        device_id,
                                        location_id,
                                        product_type: ProductType::spec_from(product_id as u16),
                                        identifier,
                                    }),
                                ),
                            },
                        },
                    },
                },
            }
        },
        _ => Err(SpecProtocolError::InvalidPlistEntry),
    }
}

impl DeviceAttachedInfo {
    /// Decodes the `Properties` dictionary of an attach event, exactly as
    /// [`spec_attached_info_of`] says.
    pub fn try_from(value: &plist::Value) -> (r: Result<DeviceAttachedInfo, ProtocolError>)
        ensures
            match r {
                Ok(info) => spec_attached_info_of(pv_model(*value)) == Ok::<
                    SpecAttachedInfo,
                    SpecProtocolError,
                >(info@),
                Err(e) => spec_attached_info_of(pv_model(*value)) == Err::<
                    SpecAttachedInfo,
                    SpecProtocolError,
                >(e@),
            },
    {
        let d = match value_as_dictionary(value) {
            Some(d) => d,
            None => {
                return Err(ProtocolError::InvalidPlistEntry);
            },
        };
        let connection_type = match dictionary_get(d, "ConnectionType") {
            Some(cv) => match DeviceConnectionType::try_from(cv) {
                Ok(c) => c,
                Err(_) => {
                    return Err(ProtocolError::InvalidPlistEntryForKey("ConnectionType"));
                },
            },
            None => {
                return Err(ProtocolError::InvalidPlistEntryForKey("ConnectionType"));
            },
        };
        let device_id = match get_u64(d, "DeviceID") {
            Some(n) => n,
            None => {
                return Err(ProtocolError::InvalidPlistEntryForKey("DeviceID"));
            },
        };
        let location_id = match get_u64(d, "LocationID") {
            Some(n) => n,
            None => {
                return Err(ProtocolError::InvalidPlistEntryForKey("LocationID"));
            },
        };
        let product_id = match get_u64(d, "ProductID") {
            Some(n) => n,
            None => {
                return Err(ProtocolError::InvalidPlistEntryForKey("ProductID"));
            },
        };
        let product_type = ProductType::from(#[verifier::truncate] (product_id as u16));
        let identifier = match get_string(d, "SerialNumber") {
            Some(s) => s,
            None => {
                return Err(ProtocolError::InvalidPlistEntryForKey("SerialNumber"));
            },
        };
        Ok(DeviceAttachedInfo { connection_type, device_id, location_id, product_type, identifier })
    }
}

/// Event that can occur on a device listener.
#[derive(Debug)]
pub enum DeviceEvent {
    /// Device was plugged into the host.
    Attached(DeviceAttachedInfo),
    /// Device was unplugged from the host.
    Detached(DeviceId),
    /// Device was paired to the host (trusting the computer was
    /// authorized).
    Paired(DeviceId),
}

/// Mathematical model of a [`DeviceEvent`].
pub enum SpecDeviceEvent {
    Attached(SpecAttachedInfo),
    Detached(u64),
    Paired(u64),
}

impl View for DeviceEvent {
    type V = SpecDeviceEvent;

    open spec fn view(&self) -> SpecDeviceEvent {
        match self {
            DeviceEvent::Attached(info) => SpecDeviceEvent::Attached(info@),
            DeviceEvent::Detached(id) => SpecDeviceEvent::Detached(*id),
            DeviceEvent::Paired(id) => SpecDeviceEvent::Paired(*id),
        }
    }
}

/// What a device-event plist decodes to.  The root must be a dictionary
/// holding a known `MessageType` and an unsigned `DeviceID`; an `Attached`
/// event must also carry a decodable `Properties` dictionary; a `Result`
/// message is invalid at this call site (result frames belong to
/// handshakes, never to the event stream).
pub open spec fn spec_event_of(m: SpecPlist) -> Result<SpecDeviceEvent, SpecProtocolError> {
    match m {
        SpecPlist::Dict(entries) => match spec_dict_get(entries, "MessageType"@) {
            None => Err(SpecProtocolError::InvalidPlistEntryForKey("MessageType"@)),
            Some(mtv) => match spec_message_type_of(mtv) {
                Err(e) => Err(e),
                Ok(mt) => match spec_opt_u64(entries, "DeviceID"@) {
                    None => Err(SpecProtocolError::InvalidPlistEntryForKey("DeviceID"@)),
                    Some(device_id) => match mt {
                        MessageType::Attached => match spec_dict_get(entries, "Properties"@) {
                            None => Err(SpecProtocolError::InvalidPlistEntryForKey("Properties"@)),
                            Some(pv) => match spec_attached_info_of(pv) {
                                Ok(info) => Ok(SpecDeviceEvent::Attached(info)),
                                Err(_) => Err(
                                    SpecProtocolError::InvalidPlistEntryForKey("Properties"@),
                                ),
                            },
                        },
                        MessageType::Detached => Ok(SpecDeviceEvent::Detached(device_id)),
                        MessageType::Paired => Ok(SpecDeviceEvent::Paired(device_id)),
                        MessageType::Result => Err(
                            SpecProtocolError::InvalidMessageType("Result"@),
                        ),
                    },
                },
            },
        },
        _ => Err(SpecProtocolError::InvalidPlistEntry),
    }
}

/// What decoding raw plist bytes into a device event yields: a parse
/// failure is an invalid plist entry, a parsed tree decodes as
/// [`spec_event_of`] says.
pub open spec fn spec_decode_event(data: Seq<u8>) -> Result<SpecDeviceEvent, SpecProtocolError> {
    match parsed_plist(data) {
        Some(m) => spec_event_of(m),
        None => Err(SpecProtocolError::InvalidPlistEntry),
    }
}

impl DeviceEvent {
    /// Decodes a parsed plist value into a device event, exactly as
    /// [`spec_event_of`] says.
    pub fn try_from(value: &plist::Value) -> (r: Result<DeviceEvent, ProtocolError>)
        ensures
            match r {
                Ok(ev) => spec_event_of(pv_model(*value)) == Ok::<
                    SpecDeviceEvent,
                    SpecProtocolError,
                >(ev@),
                Err(e) => spec_event_of(pv_model(*value)) == Err::<
                    SpecDeviceEvent,
                    SpecProtocolError,
                >(e@),
            },
    {
        let d = match value_as_dictionary(value) {
            Some(d) => d,
            None => {
                return Err(ProtocolError::InvalidPlistEntry);
            },
        };
        let mtv = match dictionary_get(d, "MessageType") {
            Some(v) => v,
            None => {
                return Err(ProtocolError::InvalidPlistEntryForKey("MessageType"));
            },
        };
        let msg_type = MessageType::try_from(mtv)?;
        let device_id = match get_u64(d, "DeviceID") {
            Some(n) => n,
            None => {
                return Err(ProtocolError::InvalidPlistEntryForKey("DeviceID"));
            },
        };
        match msg_type {
            MessageType::Attached => {
                let pv = match dictionary_get(d, "Properties") {
                    Some(v) => v,
                    None => {
                        return Err(ProtocolError::InvalidPlistEntryForKey("Properties"));
                    },
                };
                match DeviceAttachedInfo::try_from(pv) {
                    Ok(info) => Ok(DeviceEvent::Attached(info)),
                    Err(_) => Err(ProtocolError::InvalidPlistEntryForKey("Properties")),
                }
            },
            MessageType::Detached => Ok(DeviceEvent::Detached(device_id)),
            MessageType::Paired => Ok(DeviceEvent::Paired(device_id)),
            MessageType::Result => Err(ProtocolError::InvalidMessageType("Result".to_owned())),
        }
    }

    /// Decodes raw plist bytes into a device event, exactly as
    /// [`spec_decode_event`] says.
    pub fn from_vec(data: Vec<u8>) -> (r: Result<DeviceEvent, ProtocolError>)
        ensures
            match r {
                Ok(ev) => spec_decode_event(data@) == Ok::<SpecDeviceEvent, SpecProtocolError>(
                    ev@,
                ),
                Err(e) => spec_decode_event(data@) == Err::<SpecDeviceEvent, SpecProtocolError>(
                    e@,
                ),
            },
    {
        match parse_plist(data.as_slice()) {
            Some(value) => DeviceEvent::try_from(&value),
            None => Err(ProtocolError::InvalidPlistEntry),
        }
    }
}

/// Reply to a handshake: a signed status code, 0 meaning success.
#[derive(Debug)]
pub struct ResultMessage(pub i64);

/// What a handshake-reply plist decodes to: the root must be a dictionary
/// with a signed integer under `Number`.
pub open spec fn spec_result_message_of(m: SpecPlist) -> Result<i64, SpecProtocolError> {
    match m {
        SpecPlist::Dict(entries) => match spec_opt_i64(entries, "Number"@) {
            Some(num) => Ok(num),
            None => Err(SpecProtocolError::InvalidPlistEntryForKey("Number"@)),
        },
        _ => Err(SpecProtocolError::InvalidPlistEntry),
    }
}

/// What decoding raw plist bytes into a handshake reply yields.
pub open spec fn spec_decode_result(data: Seq<u8>) -> Result<i64, SpecProtocolError> {
    match parsed_plist(data) {
        Some(m) => spec_result_message_of(m),
        None => Err(SpecProtocolError::InvalidPlistEntry),
    }
}

impl ResultMessage {
    /// Decodes a parsed plist value into a handshake reply, exactly as
    /// [`spec_result_message_of`] says.
    pub fn try_from(value: &plist::Value) -> (r: Result<ResultMessage, ProtocolError>)
        ensures
            match r {
                Ok(msg) => spec_result_message_of(pv_model(*value)) == Ok::<
                    i64,
                    SpecProtocolError,
                >(msg.0),
                Err(e) => spec_result_message_of(pv_model(*value)) == Err::<
                    i64,
                    SpecProtocolError,
                >(e@),
            },
    {
        let d = match value_as_dictionary(value) {
            Some(d) => d,
            None => {
                return Err(ProtocolError::InvalidPlistEntry);
            },
        };
        match get_i64(d, "Number") {
            Some(num) => Ok(ResultMessage(num)),
            None => Err(ProtocolError::InvalidPlistEntryForKey("Number")),
        }
    }

    /// Decodes raw plist bytes into a handshake reply, exactly as
    /// [`spec_decode_result`] says.
    pub fn from_reader(data: &[u8]) -> (r: Result<ResultMessage, ProtocolError>)
        ensures
            match r {
                Ok(msg) => spec_decode_result(data@) == Ok::<i64, SpecProtocolError>(msg.0),
                Err(e) => spec_decode_result(data@) == Err::<i64, SpecProtocolError>(e@),
            },
    {
        match parse_plist(data) {
            Some(value) => ResultMessage::try_from(&value),
            None => Err(ProtocolError::InvalidPlistEntry),
        }
    }
}

/// The big-endian byte-swapped representation of a 16-bit value.
pub open spec fn spec_u16_swap_bytes(x: u16) -> u16 {
    ((x & 0xff) << 8) | (x >> 8)
}

/// Swaps the two bytes of a 16-bit value.
fn swap_u16(x: u16) -> (r: u16)
    ensures
        r == spec_u16_swap_bytes(x),
{
    proof {
        assert((x & 0xff) << 8 <= 0xff00) by (bit_vector);
    }
    ((x & 0xff) << 8u16) | (x >> 8u16)
}

/// Outbound plist payload requesting an action from the muxer.
#[derive(Debug)]
pub struct Command {
    /// `Listen` or `Connect`.
    pub message_type: String,
    /// Name this client reports to the muxer.
    pub prog_name: String,
    /// Version string this client reports to the muxer.
    pub client_version_string: String,
    /// Target port, stored pre-swapped to network byte order; present only
    /// for `Connect`.
    pub port_number: Option<u16>,
    /// Target device; present only for `Connect`.
    pub device_id: Option<DeviceId>,
}

impl Command {
    /// The dictionary entries this command serializes to, in order:
    /// `MessageType`, `ProgName`, `ClientVersionString`, then `PortNumber`
    /// and `DeviceID` when present.
    pub open spec fn spec_entries(self) -> Seq<(Seq<char>, SpecPlist)> {
        let base = seq![
            ("MessageType"@, SpecPlist::Str(self.message_type@)),
            ("ProgName"@, SpecPlist::Str(self.prog_name@)),
            ("ClientVersionString"@, SpecPlist::Str(self.client_version_string@)),
        ];
        let with_port = match self.port_number {
            Some(p) => base.push(("PortNumber"@, SpecPlist::Integer(p as int))),
            None => base,
        };
        match self.device_id {
            Some(id) => with_port.push(("DeviceID"@, SpecPlist::Integer(id as int))),
            None => with_port,
        }
    }

    /// The plist value tree this command serializes to.
    pub open spec fn spec_plist(self) -> SpecPlist {
        SpecPlist::Dict(self.spec_entries())
    }

    /// Builds a command with the given message type and this client's
    /// name and version, and no port or device.
    pub fn new(command: &str) -> (r: Command)
        ensures
            r.message_type@ == command@,
            r.prog_name@ == "Peertalk Example"@,
            r.client_version_string@ == "1"@,
            r.port_number is None,
            r.device_id is None,
    {
        Command {
            message_type: command.to_owned(),
            prog_name: "Peertalk Example".to_owned(),
            client_version_string: "1".to_owned(),
            port_number: None,
            device_id: None,
        }
    }

    /// The command that registers this client for device events.
    pub fn listen() -> (r: Command)
        ensures
            r.message_type@ == "Listen"@,
            r.prog_name@ == "Peertalk Example"@,
            r.client_version_string@ == "1"@,
            r.port_number is None,
            r.device_id is None,
    {
        Command::new("Listen")
    }

    /// The command that requests a tunnel to a port on a device.  The port
    /// is stored byte-swapped: the remote service expects it in network
    /// byte order even though the surrounding plist integer has no inherent
    /// endianness.
    pub fn connect(port: u16, device_id: DeviceId) -> (r: Command)
        ensures
            r.message_type@ == "Connect"@,
            r.prog_name@ == "Peertalk Example"@,
            r.client_version_string@ == "1"@,
            r.port_number == Some(spec_u16_swap_bytes(port)),
            r.device_id == Some(device_id),
    {
        let mut command = Command::new("Connect");
        command.port_number = Some(swap_u16(port));
        command.device_id = Some(device_id);
        command
    }

    /// Serializes this command as an XML plist with the entries
    /// [`Command::spec_entries`] lists.
    pub fn to_bytes(&self) -> (r: Vec<u8>)
        ensures
            r@ == plist_xml(self.spec_plist()),
    {
        proof {
            reveal_strlit("MessageType");
            reveal_strlit("ProgName");
            reveal_strlit("ClientVersionString");
            reveal_strlit("PortNumber");
            reveal_strlit("DeviceID");
            assert("MessageType"@.len() == 11);
            assert("ProgName"@.len() == 8);
            assert("ClientVersionString"@.len() == 19);
            assert("PortNumber"@.len() == 10);
            assert("DeviceID"@.len() == 8);
            assert("ProgName"@[0] == 'P');
            assert("DeviceID"@[0] == 'D');
        }
        let ghost e_mt = ("MessageType"@, SpecPlist::Str(self.message_type@));
        let ghost e_pn = ("ProgName"@, SpecPlist::Str(self.prog_name@));
        let ghost e_cv = ("ClientVersionString"@, SpecPlist::Str(self.client_version_string@));
        let mut d = dictionary_new();
        dictionary_insert(&mut d, "MessageType", value_from_string(self.message_type.as_str()));
        let ghost m1 = dict_model(d);
        proof {
            assert(m1 =~= seq![e_mt]);
            assert forall|i: int| 0 <= i < m1.len() implies (#[trigger] m1[i]).0 != "ProgName"@ by {
                assert(m1[i] == e_mt);
            }
            lemma_dict_get_absent(m1, "ProgName"@);
        }
        dictionary_insert(&mut d, "ProgName", value_from_string(self.prog_name.as_str()));
        let ghost m2 = dict_model(d);
        proof {
            assert(m2 =~= seq![e_mt, e_pn]);
            assert forall|i: int|
                0 <= i < m2.len() implies (#[trigger] m2[i]).0 != "ClientVersionString"@ by {
                assert(m2[i] == e_mt || m2[i] == e_pn);
            }
            lemma_dict_get_absent(m2, "ClientVersionString"@);
        }
        dictionary_insert(
            &mut d,
            "ClientVersionString",
            value_from_string(self.client_version_string.as_str()),
        );
        let ghost m3 = dict_model(d);
        proof {
            assert(m3 =~= seq![e_mt, e_pn, e_cv]);
        }
        if let Some(p) = self.port_number {
            proof {
                assert forall|i: int|
                    0 <= i < m3.len() implies (#[trigger] m3[i]).0 != "PortNumber"@ by {
                    assert(m3[i] == e_mt || m3[i] == e_pn || m3[i] == e_cv);
                }
                lemma_dict_get_absent(m3, "PortNumber"@);
            }
            dictionary_insert(&mut d, "PortNumber", value_from_u64(p as u64));
        }
        let ghost m4 = dict_model(d);
        proof {
            match self.port_number {
                Some(p) => {
                    assert(m4 =~= seq![e_mt, e_pn, e_cv].push(
                        ("PortNumber"@, SpecPlist::Integer(p as int)),
                    ));
                },
                None => {
                    assert(m4 =~= seq![e_mt, e_pn, e_cv]);
                },
            }
        }
        if let Some(id) = self.device_id {
            proof {
                assert forall|i: int|
                    0 <= i < m4.len() implies (#[trigger] m4[i]).0 != "DeviceID"@ by {
                    match self.port_number {
                        Some(p) => {
                            assert(m4[i] == e_mt || m4[i] == e_pn || m4[i] == e_cv || m4[i] == (
                            "PortNumber"@,
                            SpecPlist::Integer(p as int),
                            ));
                        },
                        None => {
                            assert(m4[i] == e_mt || m4[i] == e_pn || m4[i] == e_cv);
                        },
                    }
                }
                lemma_dict_get_absent(m4, "DeviceID"@);
            }
            dictionary_insert(&mut d, "DeviceID", value_from_u64(id));
        }
        proof {
            assert(dict_model(d) =~= self.spec_entries());
            let es = self.spec_entries();
            assert forall|i: int| 0 <= i < es.len() implies no_opaque(#[trigger] es[i].1) by {
                assert(es[i].1 matches SpecPlist::Str(_) || es[i].1 matches SpecPlist::Integer(_));
            }
        }
        let val = value_from_dictionary(d);
        plist_to_xml(&val)
    }
}

/// The value tree of the `Listen` command.
pub open spec fn spec_listen_plist() -> SpecPlist {
    SpecPlist::Dict(
        seq![
            ("MessageType"@, SpecPlist::Str("Listen"@)),
            ("ProgName"@, SpecPlist::Str("Peertalk Example"@)),
            ("ClientVersionString"@, SpecPlist::Str("1"@)),
        ],
    )
}

/// The value tree of the `Connect` command for a port and a device: the
/// port is stored byte-swapped into network byte order.
pub open spec fn spec_connect_plist(port: u16, device_id: u64) -> SpecPlist {
    SpecPlist::Dict(
        seq![
            ("MessageType"@, SpecPlist::Str("Connect"@)),
            ("ProgName"@, SpecPlist::Str("Peertalk Example"@)),
            ("ClientVersionString"@, SpecPlist::Str("1"@)),
            ("PortNumber"@, SpecPlist::Integer(spec_u16_swap_bytes(port) as int)),
            ("DeviceID"@, SpecPlist::Integer(device_id as int)),
        ],
    )
}

} // verus!
