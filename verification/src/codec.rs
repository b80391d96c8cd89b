//! The packet codec: the fixed 16-byte binary header (four little-endian
//! `u32` words) followed by a raw payload, together with the enumerations a
//! header may carry.
use crate::error::{ProtocolError, SpecProtocolError};
use vstd::prelude::*;

verus! {

/// The two wire protocols a frame may declare.
#[derive(Copy, Clone, Debug, PartialEq, Eq, Structural)]
pub enum Protocol {
    /// Raw binary payloads.
    Binary,
    /// XML plist payloads.
    Plist,
}

impl Protocol {
    /// The numeric value this protocol is encoded as on the wire.
    pub open spec fn spec_u32(self) -> u32 {
        match self {
            Protocol::Binary => 0,
            Protocol::Plist => 1,
        }
    }

    /// Which protocol a raw header word decodes to.
    pub open spec fn spec_try_from(value: u32) -> Result<Protocol, SpecProtocolError> {
        if value == 0 {
            Ok(Protocol::Binary)
        } else if value == 1 {
            Ok(Protocol::Plist)
        } else {
            Err(SpecProtocolError::InvalidProtocol(value))
        }
    }

    /// Encodes this protocol as its header word.
    pub fn as_u32(self) -> (r: u32)
        ensures
            r == self.spec_u32(),
    {
        match self {
            Protocol::Binary => 0,
            Protocol::Plist => 1,
        }
    }

    /// Decodes a header word, rejecting unknown values.
    pub fn try_from(value: u32) -> (r: Result<Protocol, ProtocolError>)
        ensures
            match r {
                Ok(p) => Self::spec_try_from(value) == Ok::<Protocol, SpecProtocolError>(p),
                Err(e) => Self::spec_try_from(value) == Err::<Protocol, SpecProtocolError>(e@),
            },
    {
        match value {
            0 => Ok(Protocol::Binary),
            1 => Ok(Protocol::Plist),
            c => Err(ProtocolError::InvalidProtocol(c)),
        }
    }
}

/// The kinds of frame the muxer protocol defines.
#[derive(Copy, Clone, Debug, PartialEq, Eq, Structural)]
pub enum PacketType {
    /// Reply to a handshake command.
    Result,
    /// Binary-protocol connect request.
    Connect,
    /// Binary-protocol listen request.
    Listen,
    /// Binary-protocol device-added notification.
    DeviceAdd,
    /// Binary-protocol device-removed notification.
    DeviceRemove,
    /// A plist-encoded payload (values 6 and 7 are reserved/unused).
    PlistPayload,
}

impl PacketType {
    /// The numeric value this packet type is encoded as on the wire.
    pub open spec fn spec_u32(self) -> u32 {
        match self {
            PacketType::Result => 1,
            PacketType::Connect => 2,
            PacketType::Listen => 3,
            PacketType::DeviceAdd => 4,
            PacketType::DeviceRemove => 5,
            PacketType::PlistPayload => 8,
        }
    }

    /// Which packet type a raw header word decodes to.
    pub open spec fn spec_try_from(value: u32) -> Result<PacketType, SpecProtocolError> {
        if value == 1 {
            Ok(PacketType::Result)
        } else if value == 2 {
            Ok(PacketType::Connect)
        } else if value == 3 {
            Ok(PacketType::Listen)
        } else if value == 4 {
            Ok(PacketType::DeviceAdd)
        } else if value == 5 {
            Ok(PacketType::DeviceRemove)
        } else if value == 8 {
            Ok(PacketType::PlistPayload)
        } else {
            Err(SpecProtocolError::InvalidPacketType(value))
        }
    }

    /// Encodes this packet type as its header word.
    pub fn as_u32(self) -> (r: u32)
        ensures
            r == self.spec_u32(),
    {
        match self {
            PacketType::Result => 1,
            PacketType::Connect => 2,
            PacketType::Listen => 3,
            PacketType::DeviceAdd => 4,
            PacketType::DeviceRemove => 5,
            PacketType::PlistPayload => 8,
        }
    }

    /// Decodes a header word, rejecting unknown values.
    pub fn try_from(value: u32) -> (r: Result<PacketType, ProtocolError>)
        ensures
            match r {
                Ok(p) => Self::spec_try_from(value) == Ok::<PacketType, SpecProtocolError>(p),
                Err(e) => Self::spec_try_from(value) == Err::<PacketType, SpecProtocolError>(e@),
            },
    {
        match value {
            1 => Ok(PacketType::Result),
            2 => Ok(PacketType::Connect),
            3 => Ok(PacketType::Listen),
            4 => Ok(PacketType::DeviceAdd),
            5 => Ok(PacketType::DeviceRemove),
            8 => Ok(PacketType::PlistPayload),
            c => Err(ProtocolError::InvalidPacketType(c)),
        }
    }
}

/// The reply codes a handshake result may carry (4 and 5 are unknown).
#[derive(Copy, Clone, Debug, PartialEq, Eq, Structural)]
pub enum ReplyCode {
    /// Success.
    Success,
    /// The command was malformed.
    BadCommand,
    /// The requested device does not exist.
    BadDevice,
    /// The device refused the connection.
    ConnectionRefused,
    /// The client protocol version was rejected.
    BadVersion,
}

impl ReplyCode {
    /// The numeric value this reply code is encoded as on the wire.
    pub open spec fn spec_u32(self) -> u32 {
        match self {
            ReplyCode::Success => 0,
            ReplyCode::BadCommand => 1,
            ReplyCode::BadDevice => 2,
            ReplyCode::ConnectionRefused => 3,
            ReplyCode::BadVersion => 6,
        }
    }

    /// Which reply code a raw value decodes to.
    pub open spec fn spec_try_from(value: u32) -> Result<ReplyCode, SpecProtocolError> {
        if value == 0 {
            Ok(ReplyCode::Success)
        } else if value == 1 {
            Ok(ReplyCode::BadCommand)
        } else if value == 2 {
            Ok(ReplyCode::BadDevice)
        } else if value == 3 {
            Ok(ReplyCode::ConnectionRefused)
        } else if value == 6 {
            Ok(ReplyCode::BadVersion)
        } else {
            Err(SpecProtocolError::InvalidReplyCode(value))
        }
    }

    /// Encodes this reply code as its wire value.
    pub fn as_u32(self) -> (r: u32)
        ensures
            r == self.spec_u32(),
    {
        match self {
            ReplyCode::Success => 0,
            ReplyCode::BadCommand => 1,
            ReplyCode::BadDevice => 2,
            ReplyCode::ConnectionRefused => 3,
            ReplyCode::BadVersion => 6,
        }
    }

    /// Decodes a reply code, rejecting unknown values.
    pub fn try_from(value: u32) -> (r: Result<ReplyCode, ProtocolError>)
        ensures
            match r {
                Ok(p) => Self::spec_try_from(value) == Ok::<ReplyCode, SpecProtocolError>(p),
                Err(e) => Self::spec_try_from(value) == Err::<ReplyCode, SpecProtocolError>(e@),
            },
    {
        match value {
            0 => Ok(ReplyCode::Success),
            1 => Ok(ReplyCode::BadCommand),
            2 => Ok(ReplyCode::BadDevice),
            3 => Ok(ReplyCode::ConnectionRefused),
            6 => Ok(ReplyCode::BadVersion),
            c => Err(ProtocolError::InvalidReplyCode(c)),
        }
    }
}

/// The little-endian byte encoding of a 32-bit word.
pub open spec fn u32_le_bytes(x: u32) -> Seq<u8> {
    seq![
        (x & 0xff) as u8,
        ((x >> 8) & 0xff) as u8,
        ((x >> 16) & 0xff) as u8,
        ((x >> 24) & 0xff) as u8,
    ]
}

/// The 32-bit word encoded little-endian by four bytes.
pub open spec fn u32_from_le_bytes(b0: u8, b1: u8, b2: u8, b3: u8) -> u32 {
    (b0 as u32) | ((b1 as u32) << 8) | ((b2 as u32) << 16) | ((b3 as u32) << 24)
}

/// The word starting at offset `pos` of a little-endian byte stream.
pub open spec fn spec_u32_at(data: Seq<u8>, pos: int) -> u32
    recommends
        0 <= pos,
        pos + 4 <= data.len(),
{
    u32_from_le_bytes(data[pos], data[pos + 1], data[pos + 2], data[pos + 3])
}

/// Decoding inverts the little-endian encoding of a word.
pub proof fn lemma_u32_le_round_trip(x: u32)
    ensures
        u32_from_le_bytes(
            u32_le_bytes(x)[0],
            u32_le_bytes(x)[1],
            u32_le_bytes(x)[2],
            u32_le_bytes(x)[3],
        ) == x,
{
    assert(((x & 0xff) as u8 as u32) | ((((x >> 8) & 0xff) as u8 as u32) << 8) | ((((x >> 16)
        & 0xff) as u8 as u32) << 16) | ((((x >> 24) & 0xff) as u8 as u32) << 24) == x)
        by (bit_vector);
}

/// Appends the little-endian encoding of `x` to `out`.
pub fn push_u32_le(out: &mut Vec<u8>, x: u32)
    ensures
        final(out)@ == old(out)@ + u32_le_bytes(x),
{
    proof {
        assert(x & 0xff < 256 && (x >> 8) & 0xff < 256 && (x >> 16) & 0xff < 256 && (x >> 24)
            & 0xff < 256) by (bit_vector);
    }
    out.push((x & 0xff) as u8);
    out.push(((x >> 8) & 0xff) as u8);
    out.push(((x >> 16) & 0xff) as u8);
    out.push(((x >> 24) & 0xff) as u8);
    proof {
        assert(out@ =~= old(out)@ + u32_le_bytes(x));
    }
}

/// Reads the word at offset `pos` of a little-endian byte stream.
pub fn read_u32_le(data: &[u8], pos: usize) -> (r: u32)
    requires
        pos + 4 <= data@.len(),
    ensures
        r == spec_u32_at(data@, pos as int),
{
    (data[pos] as u32) | ((data[pos + 1] as u32) << 8u32) | ((data[pos + 2] as u32) << 16u32) | ((
    data[pos + 3] as u32) << 24u32)
}

/// Size of the fixed binary header: four little-endian `u32` words.
pub const BASE_PACKET_SIZE: u32 = 16;

/// One frame on the wire: the fixed header plus the raw payload.
#[derive(Debug)]
pub struct Packet {
    /// Declared total size: header size plus payload length, including itself.
    pub size: u32,
    /// Protocol of the payload.
    pub protocol: Protocol,
    /// Kind of frame.
    pub packet_type: PacketType,
    /// Correlation tag; this client always sends 0 and ignores it on receipt.
    pub tag: u32,
    /// Raw payload bytes.
    pub data: Vec<u8>,
}

/// Mathematical model of a [`Packet`].
#[verifier::ext_equal]
pub struct SpecPacket {
    pub size: u32,
    pub protocol: Protocol,
    pub packet_type: PacketType,
    pub tag: u32,
    pub data: Seq<u8>,
}

impl SpecPacket {
    /// The header invariant: the declared size counts the header and the
    /// payload.
    pub open spec fn wf(self) -> bool {
        self.size == 16 + self.data.len()
    }
}

impl View for Packet {
    type V = SpecPacket;

    open spec fn view(&self) -> SpecPacket {
        SpecPacket {
            size: self.size,
            protocol: self.protocol,
            packet_type: self.packet_type,
            tag: self.tag,
            data: self.data@,
        }
    }
}

/// The byte encoding of a frame: four little-endian words followed by the
/// payload.
pub open spec fn spec_packet_bytes(p: SpecPacket) -> Seq<u8> {
    u32_le_bytes(p.size) + u32_le_bytes(p.protocol.spec_u32()) + u32_le_bytes(
        p.packet_type.spec_u32(),
    ) + u32_le_bytes(p.tag) + p.data
}

/// What decoding one frame at offset `pos` of `data` yields: the frame and
/// the offset just past it, or the error mandated for the malformed input.
pub open spec fn spec_parse_packet(data: Seq<u8>, pos: int) -> Result<
    (SpecPacket, int),
    SpecProtocolError,
>
    recommends
        0 <= pos <= data.len(),
{
    if pos + 16 > data.len() {
        Err(SpecProtocolError::Truncated)
    } else {
        let size = spec_u32_at(data, pos);
        let praw = spec_u32_at(data, pos + 4);
        let traw = spec_u32_at(data, pos + 8);
        let tag = spec_u32_at(data, pos + 12);
        match (Protocol::spec_try_from(praw), PacketType::spec_try_from(traw)) {
            (Err(e), _) => Err(e),
            (_, Err(e)) => Err(e),
            (Ok(protocol), Ok(packet_type)) => if size < 16 {
                Err(SpecProtocolError::InvalidPacketSize(size))
            } else if pos + size > data.len() {
                Err(SpecProtocolError::Truncated)
            } else {
                Ok(
                    (
                        SpecPacket {
                            size,
                            protocol,
                            packet_type,
                            tag,
                            data: data.subrange(pos + 16, pos + size),
                        },
                        pos + size,
                    ),
                )
            },
        }
    }
}

impl Packet {
    /// Builds a frame around a payload, computing the declared total size.
    pub fn new(protocol: Protocol, packet_type: PacketType, tag: u32, payload: Vec<u8>) -> (r:
        Packet)
        requires
            16 + payload@.len() <= u32::MAX,
        ensures
            r@ == (SpecPacket {
                size: (16 + payload@.len()) as u32,
                protocol,
                packet_type,
                tag,
                data: payload@,
            }),
            r@.wf(),
    {
        let size: u32 = BASE_PACKET_SIZE + payload.len() as u32;
        Packet { size, protocol, packet_type, tag, data: payload }
    }

    /// Appends this frame's byte encoding to `out`.
    pub fn write_into(&self, out: &mut Vec<u8>)
        ensures
            final(out)@ == old(out)@ + spec_packet_bytes(self@),
    {
        push_u32_le(out, self.size);
        push_u32_le(out, self.protocol.as_u32());
        push_u32_le(out, self.packet_type.as_u32());
        push_u32_le(out, self.tag);
        let ghost header = old(out)@ + u32_le_bytes(self.size) + u32_le_bytes(
            self.protocol.spec_u32(),
        ) + u32_le_bytes(self.packet_type.spec_u32()) + u32_le_bytes(self.tag);
        let mut i: usize = 0;
        while i < self.data.len()
            invariant
                i <= self.data@.len(),
                out@ == header + self.data@.subrange(0, i as int),
            decreases self.data@.len() - i,
        {
            out.push(self.data[i]);
            proof {
                assert(out@ =~= header + self.data@.subrange(0, i + 1));
            }
            i = i + 1;
        }
        proof {
            assert(out@ =~= old(out)@ + spec_packet_bytes(self@));
        }
    }

    /// Decodes one frame starting at offset `pos` of `data`, returning the
    /// frame and the offset just past it.  Exactly the complete,
    /// known-protocol, known-type frames of declared size at least the header
    /// size decode; everything else is rejected as [`spec_parse_packet`]
    /// says.
    pub fn from_reader(data: &[u8], pos: usize) -> (r: Result<(Packet, usize), ProtocolError>)
        requires
            pos <= data@.len(),
        ensures
            match r {
                Ok(p) => p.0@.wf() && (spec_parse_packet(data@, pos as int) matches Ok(sp) && sp.0
                    == p.0@ && sp.1 == p.1 as int) && pos < p.1 <= data@.len(),
                Err(e) => spec_parse_packet(data@, pos as int) == Err::<
                    (SpecPacket, int),
                    SpecProtocolError,
                >(e@),
            },
    {
        if data.len() - pos < 16 {
            return Err(ProtocolError::Truncated);
        }
        let size = read_u32_le(data, pos);
        let praw = read_u32_le(data, pos + 4);
        let traw = read_u32_le(data, pos + 8);
        let tag = read_u32_le(data, pos + 12);
        let protocol = Protocol::try_from(praw)?;
        let packet_type = PacketType::try_from(traw)?;
        if size < 16 {
            return Err(ProtocolError::InvalidPacketSize(size));
        }
        if (size as usize) > data.len() - pos {
            return Err(ProtocolError::Truncated);
        }
        let payload_size: usize = size as usize - 16;
        let mut payload: Vec<u8> = Vec::new();
        let mut i: usize = 0;
        while i < payload_size
            invariant
                i <= payload_size,
                pos + 16 + payload_size <= data@.len(),
                pos + 16 + payload_size <= usize::MAX,
                payload@ == data@.subrange(pos + 16, pos + 16 + i),
            decreases payload_size - i,
        {
            payload.push(data[pos + 16 + i]);
            proof {
                assert(payload@ =~= data@.subrange(pos + 16, pos + 16 + i + 1));
            }
            i = i + 1;
        }
        let packet = Packet { size, protocol, packet_type, tag, data: payload };
        Ok((packet, pos + size as usize))
    }
}

/// Decoding a frame's byte encoding, with anything at all after it, yields
/// the frame back and consumes exactly its declared size.
pub proof fn lemma_packet_round_trip(p: SpecPacket, tail: Seq<u8>)
    requires
        p.wf(),
    ensures
        spec_parse_packet(spec_packet_bytes(p) + tail, 0) == Ok::<
            (SpecPacket, int),
            SpecProtocolError,
        >((p, p.size as int)),
{
    let full = spec_packet_bytes(p) + tail;
    assert(full.len() == 16 + p.data.len() + tail.len());
    lemma_u32_le_round_trip(p.size);
    lemma_u32_le_round_trip(p.protocol.spec_u32());
    lemma_u32_le_round_trip(p.packet_type.spec_u32());
    lemma_u32_le_round_trip(p.tag);
    assert(spec_u32_at(full, 0) == p.size);
    assert(spec_u32_at(full, 4) == p.protocol.spec_u32());
    assert(spec_u32_at(full, 8) == p.packet_type.spec_u32());
    assert(spec_u32_at(full, 12) == p.tag);
    lemma_protocol_word_round_trip(p.protocol);
    lemma_packet_type_word_round_trip(p.packet_type);
    assert(full.subrange(16, p.size as int) =~= p.data);
    assert(spec_parse_packet(full, 0) matches Ok(sp) && sp.0 =~= p && sp.1 == p.size as int);
}

/// A protocol's wire word decodes back to the protocol itself.
pub proof fn lemma_protocol_word_round_trip(p: Protocol)
    ensures
        Protocol::spec_try_from(p.spec_u32()) == Ok::<Protocol, SpecProtocolError>(p),
{
}

/// A packet type's wire word decodes back to the packet type itself.
pub proof fn lemma_packet_type_word_round_trip(t: PacketType)
    ensures
        PacketType::spec_try_from(t.spec_u32()) == Ok::<PacketType, SpecProtocolError>(t),
{
}

/// The frame that carries a request payload: tag 0, computed total size.
pub open spec fn spec_payload_packet(
    protocol: Protocol,
    packet_type: PacketType,
    payload: Seq<u8>,
) -> SpecPacket {
    SpecPacket {
        size: (16 + payload.len()) as u32,
        protocol,
        packet_type,
        tag: 0,
        data: payload,
    }
}

/// Encodes the frame around a request payload: the compute half of the
/// send path, whose I/O half hands these bytes to the transport.  `None`
/// exactly where the payload cannot fit the frame's 32-bit size field.
pub fn payload_frame_bytes(protocol: Protocol, packet_type: PacketType, payload: Vec<u8>) -> (r:
    Option<Vec<u8>>)
    ensures
        if 16 + payload@.len() <= u32::MAX {
            r matches Some(b) && b@ == spec_packet_bytes(
                spec_payload_packet(protocol, packet_type, payload@),
            )
        } else {
            r is None
        },
{
    if payload.len() as u64 > (u32::MAX - 16) as u64 {
        return None;
    }
    let packet = Packet::new(protocol, packet_type, 0, payload);
    let mut out: Vec<u8> = Vec::new();
    packet.write_into(&mut out);
    proof {
        assert(out@ =~= spec_packet_bytes(packet@));
    }
    Some(out)
}

/// Law: a frame that decodes is well formed — its declared size covers the
/// header, its payload is exactly the declared size minus the header, and
/// the reader advances by exactly the declared size.  The size field can
/// never underflow into an oversized payload read.
pub proof fn lemma_parsed_frame_well_formed(data: Seq<u8>, pos: int)
    requires
        0 <= pos <= data.len(),
    ensures
        spec_parse_packet(data, pos) matches Ok(pr) ==> pr.0.wf() && 16 <= pr.0.size && pr.1 == pos
            + pr.0.size && pr.1 <= data.len(),
{
}

/// Law: a frame whose declared total size is less than the header size is
/// rejected, never wrapped around.
pub proof fn lemma_undersized_total_size_fails(data: Seq<u8>, pos: int)
    requires
        0 <= pos,
        pos + 16 <= data.len(),
        spec_u32_at(data, pos) < 16,
    ensures
        spec_parse_packet(data, pos) is Err,
{
}

/// Appending bytes to a buffer cannot change how an already-complete frame
/// decodes: only a `Truncated` verdict can be revised by more data.
pub proof fn lemma_parse_extend(a: Seq<u8>, b: Seq<u8>, pos: int)
    requires
        0 <= pos <= a.len(),
    ensures
        match spec_parse_packet(a, pos) {
            Ok(pr) => spec_parse_packet(a + b, pos) == Ok::<
                (SpecPacket, int),
                SpecProtocolError,
            >(pr),
            Err(SpecProtocolError::Truncated) => true,
            Err(e) => spec_parse_packet(a + b, pos) == Err::<(SpecPacket, int), SpecProtocolError>(
                e,
            ),
        },
{
    let full = a + b;
    if pos + 16 <= a.len() {
        assert(spec_u32_at(full, pos) == spec_u32_at(a, pos));
        assert(spec_u32_at(full, pos + 4) == spec_u32_at(a, pos + 4));
        assert(spec_u32_at(full, pos + 8) == spec_u32_at(a, pos + 8));
        assert(spec_u32_at(full, pos + 12) == spec_u32_at(a, pos + 12));
        let size = spec_u32_at(a, pos);
        if 16 <= size && pos + size <= a.len() {
            assert(full.subrange(pos + 16, pos + size) =~= a.subrange(pos + 16, pos + size));
        }
    }
}

/// Parsing is position-independent: a frame decoded at the start of a
/// buffer decodes the same way after any prefix, at the shifted offset.
pub proof fn lemma_parse_shift(prefix: Seq<u8>, rest: Seq<u8>, pos: int)
    requires
        0 <= pos <= rest.len(),
    ensures
        match spec_parse_packet(rest, pos) {
            Ok(pr) => spec_parse_packet(prefix + rest, prefix.len() + pos) == Ok::<
                (SpecPacket, int),
                SpecProtocolError,
            >((pr.0, prefix.len() + pr.1)),
            Err(e) => spec_parse_packet(prefix + rest, prefix.len() + pos) == Err::<
                (SpecPacket, int),
                SpecProtocolError,
            >(e),
        },
{
    let full = prefix + rest;
    let fpos = prefix.len() + pos;
    assert(full.len() == prefix.len() + rest.len());
    if pos + 16 <= rest.len() {
        assert(spec_u32_at(full, fpos) == spec_u32_at(rest, pos));
        assert(spec_u32_at(full, fpos + 4) == spec_u32_at(rest, pos + 4));
        assert(spec_u32_at(full, fpos + 8) == spec_u32_at(rest, pos + 8));
        assert(spec_u32_at(full, fpos + 12) == spec_u32_at(rest, pos + 12));
        let size = spec_u32_at(rest, pos);
        if 16 <= size && pos + size <= rest.len() {
            assert(full.subrange(fpos + 16, fpos + size) =~= rest.subrange(pos + 16, pos + size));
        }
    }
}

} // verus!
