//! Error types for the usbmux protocol layer and for the listener/connector
//! control flow built on top of it.
use vstd::prelude::*;

verus! {

/// Errors raised while encoding or decoding protocol traffic.
#[derive(Debug, PartialEq)]
pub enum ProtocolError {
    /// Message type is invalid, or unsupported.
    InvalidMessageType(String),
    /// Plist entry isn't the type expected.
    InvalidPlistEntry,
    /// Plist entry for key is invalid/wrong type.
    InvalidPlistEntryForKey(&'static str),
    /// Invalid packet type value.
    InvalidPacketType(u32),
    /// Invalid protocol value (expect 0 or 1).
    InvalidProtocol(u32),
    /// Invalid reply code (expect 0-6 except 4, 5).
    InvalidReplyCode(u32),
    /// A frame declared a total size smaller than its own header.
    InvalidPacketSize(u32),
    /// The buffer ended before a complete frame was available.
    Truncated,
}

/// Mathematical model of a [`ProtocolError`], with strings as character
/// sequences so that specifications can construct expected errors.
pub enum SpecProtocolError {
    InvalidMessageType(Seq<char>),
    InvalidPlistEntry,
    InvalidPlistEntryForKey(Seq<char>),
    InvalidPacketType(u32),
    InvalidProtocol(u32),
    InvalidReplyCode(u32),
    InvalidPacketSize(u32),
    Truncated,
}

impl View for ProtocolError {
    type V = SpecProtocolError;

    open spec fn view(&self) -> SpecProtocolError {
        match self {
            ProtocolError::InvalidMessageType(t) => SpecProtocolError::InvalidMessageType(t@),
            ProtocolError::InvalidPlistEntry => SpecProtocolError::InvalidPlistEntry,
            ProtocolError::InvalidPlistEntryForKey(k) => SpecProtocolError::InvalidPlistEntryForKey(
                k@,
            ),
            ProtocolError::InvalidPacketType(c) => SpecProtocolError::InvalidPacketType(*c),
            ProtocolError::InvalidProtocol(c) => SpecProtocolError::InvalidProtocol(*c),
            ProtocolError::InvalidReplyCode(c) => SpecProtocolError::InvalidReplyCode(*c),
            ProtocolError::InvalidPacketSize(c) => SpecProtocolError::InvalidPacketSize(*c),
            ProtocolError::Truncated => SpecProtocolError::Truncated,
        }
    }
}

/// Errors raised by the device listener and the device connector.
#[derive(Debug)]
pub enum Error {
    /// Error with the usbmuxd protocol.
    ProtocolError(ProtocolError),
    /// usbmuxd or Apple Mobile Service isn't available or installed.
    ServiceUnavailable,
    /// Registering for device events failed with the given reply code.
    FailedToListen(i64),
    /// Establishing a network connection to the device failed with the given
    /// reply code.
    ConnectionRefused(i64),
}

/// Mathematical model of an [`Error`].
pub enum SpecError {
    ProtocolError(SpecProtocolError),
    ServiceUnavailable,
    FailedToListen(i64),
    ConnectionRefused(i64),
}

impl View for Error {
    type V = SpecError;

    open spec fn view(&self) -> SpecError {
        match self {
            Error::ProtocolError(e) => SpecError::ProtocolError(e@),
            Error::ServiceUnavailable => SpecError::ServiceUnavailable,
            Error::FailedToListen(c) => SpecError::FailedToListen(*c),
            Error::ConnectionRefused(c) => SpecError::ConnectionRefused(*c),
        }
    }
}

} // verus!
