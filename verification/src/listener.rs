//! The device listener: the `Listen` handshake and the steady-state drain
//! that turns received bytes into a FIFO queue of device events.
//!
//! The listener here is the protocol core: the caller (or the thin I/O
//! layer around this crate) owns the transport, performs the reads and
//! writes, and hands the bytes in; everything that decides — framing,
//! decoding, validation, ordering, and the carry-over of a partial tail
//! frame between polling calls — is verified.
use crate::codec::{
    lemma_packet_round_trip, lemma_parse_extend, lemma_parse_shift, payload_frame_bytes,
    spec_packet_bytes,
    spec_parse_packet, spec_payload_packet, Packet, PacketType, Protocol, SpecPacket,
};
use crate::error::{Error, ProtocolError, SpecError, SpecProtocolError};
use crate::messages::{
    spec_decode_event, spec_decode_result, spec_listen_plist, Command, DeviceEvent, ResultMessage,
    SpecDeviceEvent,
};
use crate::plist_values::plist_xml;
use std::collections::VecDeque;
use vstd::prelude::*;

verus! {

/// The events one drain pass extracts from a buffer of received bytes, in
/// wire order: complete frames are parsed from the front; each
/// plist-protocol frame whose payload decodes contributes its event;
/// binary-protocol frames and frames whose payload does not decode are
/// skipped; parsing stops at the first malformed or incomplete frame.
pub open spec fn spec_drain(data: Seq<u8>, pos: int) -> Seq<SpecDeviceEvent>
    recommends
        0 <= pos <= data.len(),
    decreases data.len() - pos,
    when 0 <= pos <= data.len()
{
    match spec_parse_packet(data, pos) {
        Ok(pp) => {
            let events = if pp.0.protocol == Protocol::Plist {
                match spec_decode_event(pp.0.data) {
                    Ok(ev) => seq![ev],
                    Err(_) => Seq::<SpecDeviceEvent>::empty(),
                }
            } else {
                Seq::<SpecDeviceEvent>::empty()
            };
            if pos < pp.1 <= data.len() {
                events + spec_drain(data, pp.1)
            } else {
                events
            }
        },
        Err(_) => Seq::<SpecDeviceEvent>::empty(),
    }
}

/// The bytes a drain pass leaves for the next call: an incomplete tail
/// frame is held over so that its remainder can complete it later, while a
/// malformed frame (bad protocol, type or size) ends the pass and is
/// discarded together with whatever follows it.
pub open spec fn spec_leftover(data: Seq<u8>, pos: int) -> Seq<u8>
    recommends
        0 <= pos <= data.len(),
    decreases data.len() - pos,
    when 0 <= pos <= data.len()
{
    match spec_parse_packet(data, pos) {
        Ok(pp) => if pos < pp.1 <= data.len() {
            spec_leftover(data, pp.1)
        } else {
            Seq::<u8>::empty()
        },
        Err(SpecProtocolError::Truncated) => data.subrange(pos, data.len() as int),
        Err(_) => Seq::<u8>::empty(),
    }
}

/// Mathematical model of a [`DeviceListener`]: its queued events, oldest
/// first, and the buffered tail bytes awaiting the rest of their frame.
#[verifier::ext_equal]
pub struct SpecListener {
    pub events: Seq<SpecDeviceEvent>,
    pub pending: Seq<u8>,
}

/// What one `next_event` call does, as a function of the listener state
/// and the bytes drained from the transport: the buffered tail and the new
/// bytes are decoded together, the decoded events join the queue in wire
/// order, the new tail is buffered, and the oldest queued event (if any)
/// is handed out.
pub open spec fn spec_next_event(state: SpecListener, incoming: Seq<u8>) -> (
    Option<SpecDeviceEvent>,
    SpecListener,
) {
    let data = state.pending + incoming;
    let q = state.events + spec_drain(data, 0);
    let pending = spec_leftover(data, 0);
    if q.len() == 0 {
        (None, SpecListener { events: q, pending })
    } else {
        (Some(q[0]), SpecListener { events: q.drop_first(), pending })
    }
}

/// The models of a queue of events, in the same order.
pub open spec fn spec_events_of(s: Seq<DeviceEvent>) -> Seq<SpecDeviceEvent> {
    Seq::new(s.len(), |i: int| s[i]@)
}

/// Listens for devices connecting over USB.  Holds the FIFO queue of
/// decoded events and the unconsumed tail of the last drain pass.
#[derive(Debug)]
pub struct DeviceListener {
    events: VecDeque<DeviceEvent>,
    pending: Vec<u8>,
}

impl View for DeviceListener {
    type V = SpecListener;

    closed spec fn view(&self) -> SpecListener {
        SpecListener { events: spec_events_of(self.events@), pending: self.pending@ }
    }
}

impl DeviceListener {
    /// A fresh listener with no queued events and no buffered bytes.  The
    /// `Listen` handshake around it is driven by the transport's owner:
    /// send [`DeviceListener::listen_request`], then hold the reply
    /// payload against [`DeviceListener::check_listen_reply`].
    pub fn new() -> (r: DeviceListener)
        ensures
            r@ == (SpecListener {
                events: Seq::<SpecDeviceEvent>::empty(),
                pending: Seq::<u8>::empty(),
            }),
    {
        let r = DeviceListener { events: VecDeque::new(), pending: Vec::new() };
        proof {
            assert(r@.events =~= Seq::<SpecDeviceEvent>::empty());
            assert(r@.pending =~= Seq::<u8>::empty());
        }
        r
    }

    /// Encodes the `Listen` handshake frame: a plist-payload packet
    /// carrying the listen command.  `None` exactly where the encoded
    /// command cannot fit a frame's size field (never for this fixed
    /// command).
    pub fn listen_request() -> (r: Option<Vec<u8>>)
        ensures
            ({
                let payload = plist_xml(spec_listen_plist());
                if 16 + payload.len() <= u32::MAX {
                    r matches Some(b) && b@ == spec_packet_bytes(
                        spec_payload_packet(Protocol::Plist, PacketType::PlistPayload, payload),
                    )
                } else {
                    r is None
                }
            }),
    {
        let command = Command::listen();
        proof {
            assert(command.spec_plist() =~= spec_listen_plist());
        }
        let payload = command.to_bytes();
        payload_frame_bytes(Protocol::Plist, PacketType::PlistPayload, payload)
    }

    /// Decides the `Listen` handshake from the reply packet's payload:
    /// reply code 0 registers the listener; any other code fails it with
    /// `FailedToListen` carrying that exact code; an undecodable reply
    /// fails with its protocol error.
    pub fn check_listen_reply(data: &[u8]) -> (r: Result<(), Error>)
        ensures
            match spec_decode_result(data@) {
                Ok(code) => if code == 0 {
                    r is Ok
                } else {
                    r matches Err(e) && e@ == SpecError::FailedToListen(code)
                },
                Err(pe) => r matches Err(e) && e@ == SpecError::ProtocolError(pe),
            },
    {
        match ResultMessage::from_reader(data) {
            Ok(res) => {
                if res.0 != 0 {
                    Err(Error::FailedToListen(res.0))
                } else {
                    Ok(())
                }
            },
            Err(e) => Err(Error::ProtocolError(e)),
        }
    }

    /// Appends `incoming` to the buffered tail, parses every complete
    /// frame, queues the decoded events in wire order, and buffers the new
    /// tail — exactly [`spec_drain`] and [`spec_leftover`] on the
    /// concatenated bytes.
    pub fn drain_events(&mut self, incoming: &[u8])
        ensures
            final(self)@.events == old(self)@.events + spec_drain(
                old(self)@.pending + incoming@,
                0,
            ),
            final(self)@.pending == spec_leftover(old(self)@.pending + incoming@, 0),
    {
        let ghost base_events = self@.events;
        let ghost old_pending = self@.pending;
        let mut data: Vec<u8> = Vec::new();
        data.append(&mut self.pending);
        let mut k: usize = 0;
        proof {
            assert(data@ =~= old_pending + incoming@.subrange(0, 0));
        }
        while k < incoming.len()
            invariant
                k <= incoming@.len(),
                data@ == old_pending + incoming@.subrange(0, k as int),
                self@.events == base_events,
                self@.pending == Seq::<u8>::empty(),
            decreases incoming@.len() - k,
        {
            data.push(incoming[k]);
            proof {
                assert(data@ =~= old_pending + incoming@.subrange(0, k + 1));
            }
            k = k + 1;
        }
        proof {
            assert(incoming@.subrange(0, incoming@.len() as int) =~= incoming@);
            assert(data@ == old_pending + incoming@);
        }
        let mut pos: usize = 0;
        let ghost mut taken: Seq<SpecDeviceEvent> = Seq::<SpecDeviceEvent>::empty();
        proof {
            assert(base_events =~= base_events + taken);
            assert(spec_drain(data@, 0) =~= taken + spec_drain(data@, 0));
        }
        loop
            invariant_except_break
                self@.pending == Seq::<u8>::empty(),
            invariant
                pos <= data@.len(),
                self@.events == base_events + taken,
                spec_drain(data@, 0) == taken + spec_drain(data@, pos as int),
                spec_leftover(data@, 0) == spec_leftover(data@, pos as int),
            ensures
                self@.events == base_events + spec_drain(data@, 0),
                self@.pending == spec_leftover(data@, 0),
            decreases data@.len() - pos,
        {
            let ghost pos0 = pos as int;
            let ghost taken0 = taken;
            match Packet::from_reader(&data, pos) {
                Ok((packet, newpos)) => {
                    let ghost pdata = packet.data@;
                    let ghost step = if packet.protocol == Protocol::Plist {
                        match spec_decode_event(pdata) {
                            Ok(ev) => seq![ev],
                            Err(_) => Seq::<SpecDeviceEvent>::empty(),
                        }
                    } else {
                        Seq::<SpecDeviceEvent>::empty()
                    };
                    proof {
                        assert(spec_drain(data@, pos0) == step + spec_drain(data@, newpos as int));
                        assert(spec_leftover(data@, pos0) == spec_leftover(data@, newpos as int));
                    }
                    if packet.protocol == Protocol::Plist {
                        match DeviceEvent::from_vec(packet.data) {
                            Ok(ev) => {
                                let ghost evs0 = self.events@;
                                self.events.push_back(ev);
                                proof {
                                    taken = taken.push(ev@);
                                    assert(self.events@ == evs0.push(ev));
                                    assert(spec_events_of(evs0) == base_events + taken0);
                                    assert(self@.events =~= base_events + taken) by {
                                        assert(spec_events_of(evs0).len() == evs0.len());
                                        assert(evs0.len() == base_events.len() + taken0.len());
                                        assert(taken.len() == taken0.len() + 1);
                                        assert forall|i: int|
                                            0 <= i < evs0.len() + 1 implies spec_events_of(
                                            evs0.push(ev),
                                        )[i] == (base_events + taken)[i] by {
                                            if i < evs0.len() {
                                                assert(evs0.push(ev)[i] == evs0[i]);
                                                assert(spec_events_of(evs0)[i] == evs0[i]@);
                                                if i < base_events.len() {
                                                    assert((base_events + taken)[i]
                                                        == base_events[i]);
                                                    assert((base_events + taken0)[i]
                                                        == base_events[i]);
                                                } else {
                                                    let j = i - base_events.len();
                                                    assert(taken[j] == taken0.push(ev@)[j]);
                                                    assert(taken0.push(ev@)[j] == taken0[j]);
                                                    assert((base_events + taken)[i] == taken[j]);
                                                    assert((base_events + taken0)[i] == taken0[j]);
                                                }
                                            } else {
                                                assert(evs0.push(ev)[i] == ev);
                                                assert((base_events + taken)[i] == taken[
                                                    i - base_events.len()
                                                ]);
                                                assert(taken[taken0.len() as int] == ev@);
                                            }
                                        }
                                    }
                                    assert(taken =~= taken0 + step);
                                }
                            },
                            Err(_) => {
                                proof {
                                    assert(step =~= Seq::<SpecDeviceEvent>::empty());
                                    assert(taken =~= taken0 + step);
                                }
                            },
                        }
                    } else {
                        proof {
                            assert(taken =~= taken0 + step);
                        }
                    }
                    pos = newpos;
                    proof {
                        assert((taken0 + step) + spec_drain(data@, pos as int) =~= taken0 + (step
                            + spec_drain(data@, pos as int)));
                        assert(spec_drain(data@, 0) == taken + spec_drain(data@, pos as int));
                    }
                },
                Err(e) => {
                    proof {
                        assert(spec_drain(data@, pos as int) =~= Seq::<SpecDeviceEvent>::empty());
                        assert(taken + spec_drain(data@, pos as int) =~= taken);
                        assert(self@.events =~= base_events + spec_drain(data@, 0));
                    }
                    match e {
                        ProtocolError::Truncated => {
                            proof {
                                assert(spec_leftover(data@, pos as int) =~= data@.subrange(
                                    pos as int,
                                    data@.len() as int,
                                ));
                            }
                            let mut j: usize = pos;
                            while j < data.len()
                                invariant
                                    pos <= j <= data@.len(),
                                    self@.events == base_events + taken,
                                    self@.pending == data@.subrange(pos as int, j as int),
                                decreases data@.len() - j,
                            {
                                self.pending.push(data[j]);
                                proof {
                                    assert(self.pending@ =~= data@.subrange(pos as int, j + 1));
                                }
                                j = j + 1;
                            }
                        },
                        _ => {
                            proof {
                                assert(spec_leftover(data@, pos as int) =~= Seq::<u8>::empty());
                            }
                        },
                    }
                    break ;
                },
            }
        }
    }

    /// Drains the bytes currently available from the transport, then
    /// returns and removes the oldest queued event, or `None` if the queue
    /// is empty after the drain — exactly [`spec_next_event`] on the old
    /// listener state and the incoming bytes.
    pub fn next_event(&mut self, incoming: &[u8]) -> (r: Option<DeviceEvent>)
        ensures
            ({
                let sr = spec_next_event(old(self)@, incoming@);
                final(self)@ == sr.1 && (match r {
                    Some(ev) => sr.0 == Some(ev@),
                    None => sr.0 is None,
                })
            }),
    {
        self.drain_events(incoming);
        let ghost q = old(self)@.events + spec_drain(old(self)@.pending + incoming@, 0);
        let r = self.events.pop_front();
        proof {
            if q.len() == 0 {
                assert(self@.events =~= q);
            } else {
                assert(self@.events =~= q.drop_first());
            }
        }
        r
    }
}

/// The byte stream that a sequence of frames encodes to, first frame
/// first.
pub open spec fn spec_frames_bytes(packets: Seq<SpecPacket>) -> Seq<u8>
    decreases packets.len(),
{
    if packets.len() == 0 {
        Seq::<u8>::empty()
    } else {
        spec_packet_bytes(packets[0]) + spec_frames_bytes(packets.drop_first())
    }
}

/// A drain pass is position-independent: draining after a prefix sees the
/// same frames.
pub proof fn lemma_drain_shift(prefix: Seq<u8>, rest: Seq<u8>, pos: int)
    requires
        0 <= pos <= rest.len(),
    ensures
        spec_drain(prefix + rest, prefix.len() + pos) == spec_drain(rest, pos),
    decreases rest.len() - pos,
{
    lemma_parse_shift(prefix, rest, pos);
    match spec_parse_packet(rest, pos) {
        Ok(pr) => {
            lemma_drain_shift(prefix, rest, pr.1);
        },
        Err(_) => {},
    }
}

/// Draining a buffer that starts with one complete plist frame whose
/// payload decodes yields that frame's event and then the drain of the
/// rest.
#[verifier::rlimit(100)]
pub proof fn lemma_drain_cons(p0: SpecPacket, tail: Seq<u8>)
    requires
        p0.wf(),
        p0.protocol == Protocol::Plist,
        spec_decode_event(p0.data) is Ok,
    ensures
        spec_drain(spec_packet_bytes(p0) + tail, 0) == seq![spec_decode_event(p0.data)->Ok_0]
            + spec_drain(tail, 0),
{
    let prefix = spec_packet_bytes(p0);
    let full = prefix + tail;
    lemma_packet_round_trip(p0, tail);
    assert(prefix.len() == p0.size);
    lemma_drain_shift(prefix, tail, 0);
    assert(spec_drain(full, 0) == seq![spec_decode_event(p0.data)->Ok_0] + spec_drain(
        full,
        p0.size as int,
    ));
}

/// Law: frames concatenated on the wire drain to their events in wire
/// order.  A buffer holding exactly the encodings of complete
/// plist-protocol frames whose payloads decode drains to each frame's
/// event, first frame first — this is the order `next_event` then hands
/// them out.
#[verifier::rlimit(60)]
pub proof fn lemma_drain_frames(packets: Seq<SpecPacket>)
    requires
        forall|i: int| 0 <= i < packets.len() ==> (#[trigger] packets[i]).wf(),
        forall|i: int|
            0 <= i < packets.len() ==> (#[trigger] packets[i]).protocol == Protocol::Plist,
        forall|i: int|
            0 <= i < packets.len() ==> spec_decode_event((#[trigger] packets[i]).data) is Ok,
    ensures
        spec_drain(spec_frames_bytes(packets), 0) == Seq::new(
            packets.len(),
            |i: int| spec_decode_event(packets[i].data)->Ok_0,
        ),
    decreases packets.len(),
{
    let want = Seq::new(packets.len(), |i: int| spec_decode_event(packets[i].data)->Ok_0);
    if packets.len() == 0 {
        assert(spec_frames_bytes(packets) =~= Seq::<u8>::empty());
        assert(spec_drain(Seq::<u8>::empty(), 0) =~= want);
    } else {
        let p0 = packets[0];
        let rest = packets.drop_first();
        let tail = spec_frames_bytes(rest);
        assert(spec_frames_bytes(packets) == spec_packet_bytes(p0) + tail);
        assert(p0.wf() && p0.protocol == Protocol::Plist && spec_decode_event(p0.data) is Ok);
        lemma_drain_cons(p0, tail);
        assert forall|i: int| 0 <= i < rest.len() implies (#[trigger] rest[i]).wf() && rest[i].protocol
            == Protocol::Plist && spec_decode_event(rest[i].data) is Ok by {
            assert(rest[i] == packets[i + 1]);
        }
        lemma_drain_frames(rest);
        let ev0 = spec_decode_event(p0.data)->Ok_0;
        let rest_want = Seq::new(rest.len(), |i: int| spec_decode_event(rest[i].data)->Ok_0);
        assert(spec_drain(spec_frames_bytes(packets), 0) == seq![ev0] + rest_want);
        assert(seq![ev0] + rest_want =~= want) by {
            assert forall|i: int| 0 <= i < want.len() implies (seq![ev0] + rest_want)[i]
                == want[i] by {
                if i > 0 {
                    assert(rest[i - 1] == packets[i]);
                    assert(rest_want[i - 1] == spec_decode_event(rest[i - 1].data)->Ok_0);
                }
            }
        }
    }
}

/// Whether a byte stream holds no malformed frame: every complete frame
/// parses, and the stream ends cleanly or inside an incomplete tail frame
/// (never at a bad protocol, packet type or size).
pub open spec fn spec_stream_ok(data: Seq<u8>, pos: int) -> bool
    recommends
        0 <= pos <= data.len(),
    decreases data.len() - pos,
    when 0 <= pos <= data.len()
{
    match spec_parse_packet(data, pos) {
        Ok(pp) => if pos < pp.1 <= data.len() {
            spec_stream_ok(data, pp.1)
        } else {
            true
        },
        Err(SpecProtocolError::Truncated) => true,
        Err(_) => false,
    }
}

/// The bytes a drain pass leaves over are position-independent, like the
/// events it extracts.
pub proof fn lemma_leftover_shift(prefix: Seq<u8>, rest: Seq<u8>, pos: int)
    requires
        0 <= pos <= rest.len(),
    ensures
        spec_leftover(prefix + rest, prefix.len() + pos) == spec_leftover(rest, pos),
    decreases rest.len() - pos,
{
    let full = prefix + rest;
    lemma_parse_shift(prefix, rest, pos);
    match spec_parse_packet(rest, pos) {
        Ok(pr) => {
            lemma_leftover_shift(prefix, rest, pr.1);
        },
        Err(SpecProtocolError::Truncated) => {
            assert(full.subrange(prefix.len() + pos, full.len() as int) =~= rest.subrange(
                pos,
                rest.len() as int,
            ));
        },
        Err(_) => {},
    }
}

/// Law: the transport may deliver a well-formed byte stream in any split.
/// Draining `a` and then, with the held-over tail, draining `b` yields the
/// same events in the same order, and the same held-over tail, as draining
/// `a + b` in one pass — so a frame cut by a read boundary is never lost.
/// (A stream with a malformed frame is excluded: a pass stops there and
/// discards the rest, so a later pass may see bytes an uncut pass never
/// reaches.)
pub proof fn lemma_drain_split(a: Seq<u8>, b: Seq<u8>)
    requires
        spec_stream_ok(a + b, 0),
    ensures
        spec_drain(a + b, 0) == spec_drain(a, 0) + spec_drain(spec_leftover(a, 0) + b, 0),
        spec_leftover(a + b, 0) == spec_leftover(spec_leftover(a, 0) + b, 0),
{
    lemma_drain_split_at(a, b, 0);
}

/// The split law, generalized over the parse position inside `a`.
#[verifier::rlimit(100)]
proof fn lemma_drain_split_at(a: Seq<u8>, b: Seq<u8>, pos: int)
    requires
        0 <= pos <= a.len(),
        spec_stream_ok(a + b, pos),
    ensures
        spec_drain(a + b, pos) == spec_drain(a, pos) + spec_drain(spec_leftover(a, pos) + b, 0),
        spec_leftover(a + b, pos) == spec_leftover(spec_leftover(a, pos) + b, 0),
    decreases a.len() - pos,
{
    let full = a + b;
    lemma_parse_extend(a, b, pos);
    match spec_parse_packet(a, pos) {
        Ok(pr) => {
            assert(spec_parse_packet(full, pos) == Ok::<
                (SpecPacket, int),
                SpecProtocolError,
            >(pr));
            lemma_drain_split_at(a, b, pr.1);
            let step = if pr.0.protocol == Protocol::Plist {
                match spec_decode_event(pr.0.data) {
                    Ok(ev) => seq![ev],
                    Err(_) => Seq::<SpecDeviceEvent>::empty(),
                }
            } else {
                Seq::<SpecDeviceEvent>::empty()
            };
            assert(spec_drain(full, pos) == step + spec_drain(full, pr.1));
            assert(spec_drain(a, pos) == step + spec_drain(a, pr.1));
            assert(spec_leftover(a, pos) == spec_leftover(a, pr.1));
            assert(step + (spec_drain(a, pr.1) + spec_drain(spec_leftover(a, pr.1) + b, 0)) =~= (
            step + spec_drain(a, pr.1)) + spec_drain(spec_leftover(a, pr.1) + b, 0));
        },
        Err(SpecProtocolError::Truncated) => {
            let head = a.subrange(0, pos);
            let tail = a.subrange(pos, a.len() as int);
            assert(spec_leftover(a, pos) == tail);
            assert(spec_drain(a, pos) =~= Seq::<SpecDeviceEvent>::empty());
            assert(full =~= head + (tail + b));
            lemma_drain_shift(head, tail + b, 0);
            lemma_leftover_shift(head, tail + b, 0);
            assert(spec_drain(full, pos) == spec_drain(tail + b, 0));
            assert(spec_leftover(full, pos) == spec_leftover(tail + b, 0));
            assert(Seq::<SpecDeviceEvent>::empty() + spec_drain(tail + b, 0) =~= spec_drain(
                tail + b,
                0,
            ));
        },
        Err(e) => {
            assert(spec_parse_packet(full, pos) == Err::<(SpecPacket, int), SpecProtocolError>(e));
            assert(!spec_stream_ok(full, pos));
        },
    }
}

/// Law: what a drain pass holds over is stable: with no new bytes, the
/// held-over tail drains to no events and is held over unchanged.  With
/// [`DeviceListener::next_event`]'s contract this makes repeated polls of
/// a listener without new bytes idempotent in every reachable state, not
/// only the idle one.
pub proof fn lemma_leftover_stable(data: Seq<u8>, pos: int)
    requires
        0 <= pos <= data.len(),
    ensures
        spec_drain(spec_leftover(data, pos), 0) == Seq::<SpecDeviceEvent>::empty(),
        spec_leftover(spec_leftover(data, pos), 0) == spec_leftover(data, pos),
    decreases data.len() - pos,
{
    match spec_parse_packet(data, pos) {
        Ok(pp) => {
            lemma_leftover_stable(data, pp.1);
        },
        Err(SpecProtocolError::Truncated) => {
            let head = data.subrange(0, pos);
            let tail = data.subrange(pos, data.len() as int);
            assert(data =~= head + tail);
            lemma_parse_shift(head, tail, 0);
            assert(spec_parse_packet(tail, 0) == Err::<(SpecPacket, int), SpecProtocolError>(
                SpecProtocolError::Truncated,
            ));
            assert(spec_leftover(tail, 0) =~= tail);
        },
        Err(_) => {
            lemma_drain_nothing();
        },
    }
}

/// Law: with no pending bytes a drain pass yields no events and buffers
/// nothing.
pub proof fn lemma_drain_nothing()
    ensures
        spec_drain(Seq::<u8>::empty(), 0) == Seq::<SpecDeviceEvent>::empty(),
        spec_leftover(Seq::<u8>::empty(), 0) == Seq::<u8>::empty(),
{
    assert(spec_leftover(Seq::<u8>::empty(), 0) =~= Seq::<u8>::empty());
}

/// Law: `next_event` on an idle listener with no pending bytes returns
/// `None` and leaves the listener idle, so repeated calls return `None`
/// with no error and no queue growth.
pub proof fn lemma_next_event_idle()
    ensures
        ({
            let idle = SpecListener {
                events: Seq::<SpecDeviceEvent>::empty(),
                pending: Seq::<u8>::empty(),
            };
            spec_next_event(idle, Seq::<u8>::empty()) == (None::<SpecDeviceEvent>, idle)
        }),
{
    lemma_drain_nothing();
    assert(Seq::<u8>::empty() + Seq::<u8>::empty() =~= Seq::<u8>::empty());
    assert(Seq::<SpecDeviceEvent>::empty() + Seq::<SpecDeviceEvent>::empty()
        =~= Seq::<SpecDeviceEvent>::empty());
}

} // verus!
