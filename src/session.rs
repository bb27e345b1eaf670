//! The status exchange: the packets a client sends, and the decisions taken
//! on the bytes that come back, as a state machine fed with stream events.

use crate::codec::{
    mcstring_encoding, mcstring_round_trip, varint_rejects_overlong, CodecError, MCString, Short, VarInt,
    MAX_STRING_BYTES, MAX_VARINT_LEN,
};
use crate::frame::{frame_round_trip, frame_spec, next_frame, next_frame_progress, next_frame_spec, FrameRead, FrameSpec};
use crate::packet::{
    decode_packet, decode_spec, encode_spec, DecodedPacket, Field, Handshake, HandshakeMode, PacketError,
    PacketSpec, ServerState, StatusPing, StatusRequest, StatusResponse,
};
use vstd::prelude::*;
use vstd::utf8::encode_utf8;

verus! {

/// Why a status check failed.
#[derive(Debug, Clone, PartialEq, Eq)]
pub enum ConnectionError {
    /// The packet has no encoding in the client's direction; nothing was sent.
    EncodeUnsupported,
    /// A frame or a field of a packet could not be read.
    Decode(PacketError),
    /// A whole, well-formed packet that the status exchange does not expect.
    UnexpectedPacket(VarInt),
    /// The stream ended before the status arrived.
    Closed,
    /// The stream failed, with the cause it gave.
    Io(String),
    /// No stream could be opened, with the cause given.
    ConnectFailed(String),
}

/// What the exchange has come to.
#[derive(Debug, Clone)]
pub enum StatusStep {
    /// More bytes are needed.
    Pending,
    /// The status arrived.
    Done(StatusResponse),
    /// The check failed.
    Failed(ConnectionError),
}

/// Ghost form of a [`StatusStep`]: the JSON text in place of the response.
pub enum StepSpec {
    Pending,
    Done(Seq<char>),
    Failed(ConnectionError),
}

impl View for StatusStep {
    type V = StepSpec;

    open spec fn view(&self) -> StepSpec {
        match self {
            StatusStep::Pending => StepSpec::Pending,
            StatusStep::Done(r) => StepSpec::Done(r.response.0@),
            StatusStep::Failed(e) => StepSpec::Failed(*e),
        }
    }
}

/// What happened on the stream since the last step.
#[derive(Debug, Clone)]
pub enum StreamEvent {
    /// These bytes arrived.
    Data(Vec<u8>),
    /// The stream ended: a read returned no bytes.
    Closed,
    /// A read failed, with this cause.
    Failed(String),
}

#[via_fn]
proof fn exchange_spec_decreases(b: Seq<u8>) {
    next_frame_progress(b);
}

/// Where the received bytes `b` lead: frames are read in order, idle
/// frames and pongs are passed over, the first status response ends the
/// exchange, and anything malformed or unexpected fails it.
pub open spec fn exchange_spec(b: Seq<u8>) -> StepSpec
    decreases b.len() via exchange_spec_decreases
{
    match next_frame_spec(b) {
        FrameSpec::Incomplete => StepSpec::Pending,
        FrameSpec::BadLength(e) => StepSpec::Failed(ConnectionError::Decode(PacketError { field: Field::Length, cause: e })),
        FrameSpec::BadId(e) => StepSpec::Failed(ConnectionError::Decode(PacketError { field: Field::PacketId, cause: e })),
        FrameSpec::Idle { consumed } => exchange_spec(b.skip(consumed as int)),
        FrameSpec::Packet { id, payload, consumed } => match decode_spec(ServerState::Status, id, payload) {
            Err(e) => StepSpec::Failed(ConnectionError::Decode(e)),
            Ok(PacketSpec::StatusResponse(json)) => StepSpec::Done(json),
            Ok(PacketSpec::StatusPong(_)) => exchange_spec(b.skip(consumed as int)),
            Ok(_) => StepSpec::Failed(ConnectionError::UnexpectedPacket(VarInt(id))),
        },
    }
}

/// Where a session stands: what its bytes lead to, or, while they lead to
/// nothing yet, how the stream ended if it did.
pub open spec fn session_spec(received: Seq<u8>, end: Option<ConnectionError>) -> StepSpec {
    match exchange_spec(received) {
        StepSpec::Pending => match end {
            None => StepSpec::Pending,
            Some(e) => StepSpec::Failed(e),
        },
        s => s,
    }
}

/// A status response that arrives first ends the exchange with its JSON
/// text, whatever follows it.
pub proof fn response_ends_exchange(json: Seq<char>, rest: Seq<u8>)
    requires
        encode_utf8(json).len() <= MAX_STRING_BYTES,
    ensures
        exchange_spec(frame_spec(0, mcstring_encoding(json)) + rest) == StepSpec::Done(json),
{
    let payload = mcstring_encoding(json);
    mcstring_round_trip(json, Seq::empty());
    assert(payload + Seq::<u8>::empty() =~= payload);
    crate::codec::varint_round_trip(encode_utf8(json).len() as i32, Seq::empty());
    frame_round_trip(0, payload, rest);
}

/// A pong is passed over: the exchange goes on with the bytes after it.
pub proof fn pong_is_passed_over(payload: Seq<u8>, rest: Seq<u8>)
    requires
        payload.len() <= crate::frame::MAX_PAYLOAD_LEN,
    ensures
        exchange_spec(frame_spec(1, payload) + rest) == exchange_spec(rest),
{
    let f = frame_spec(1, payload);
    frame_round_trip(1, payload, rest);
    assert((f + rest).skip(f.len() as int) =~= rest);
}

/// A stream that ends before any reply fails the check as closed.
pub proof fn closed_before_reply_fails()
    ensures
        session_spec(Seq::empty(), Some(ConnectionError::Closed)) == StepSpec::Failed(ConnectionError::Closed),
{
    assert(next_frame_spec(Seq::<u8>::empty()) is Incomplete);
}

/// A length prefix that runs past the longest VarInt fails the check with
/// a malformed length, and no status comes of it.
pub proof fn overlong_length_fails(b: Seq<u8>)
    requires
        b.len() >= MAX_VARINT_LEN,
        forall|j: int| 0 <= j < MAX_VARINT_LEN ==> b[j] >= 128,
    ensures
        exchange_spec(b) == StepSpec::Failed(
            ConnectionError::Decode(PacketError { field: Field::Length, cause: CodecError::Overlong }),
        ),
{
    varint_rejects_overlong(b);
}

/// Reads the received bytes `buf` frame by frame and says where they lead.
pub fn exchange(buf: &[u8]) -> (r: StatusStep)
    ensures
        r@ == exchange_spec(buf@),
{
    let mut pos: usize = 0;
    assert(buf@.skip(0) =~= buf@);
    loop
        invariant
            pos <= buf@.len(),
            exchange_spec(buf@) == exchange_spec(buf@.skip(pos as int)),
        decreases buf@.len() - pos,
    {
        let ghost s = buf@.skip(pos as int);
        proof {
            next_frame_progress(s);
        }
        let fr = next_frame(buf, pos);
        let consumed: usize = match fr {
            FrameRead::Incomplete => return StatusStep::Pending,
            FrameRead::BadLength(e) => {
                return StatusStep::Failed(ConnectionError::Decode(PacketError { field: Field::Length, cause: e }));
            },
            FrameRead::BadId(e) => {
                return StatusStep::Failed(ConnectionError::Decode(PacketError { field: Field::PacketId, cause: e }));
            },
            FrameRead::Idle { consumed } => {
                assert(1 <= consumed <= s.len());
                consumed
            },
            FrameRead::Packet { id, payload, consumed } => {
                assert(1 <= consumed <= s.len());
                match decode_packet(id, payload.as_slice(), &ServerState::Status) {
                    Err(e) => return StatusStep::Failed(ConnectionError::Decode(e)),
                    Ok(DecodedPacket::StatusResponse(r)) => return StatusStep::Done(r),
                    Ok(DecodedPacket::StatusPong(_)) => consumed,
                    Ok(_) => return StatusStep::Failed(ConnectionError::UnexpectedPacket(id)),
                }
            },
        };
        proof {
            assert(s.skip(consumed as int) =~= buf@.skip(pos + consumed));
        }
        assert(s.len() == buf.len() - pos);
        pos = pos + consumed;
    }
}

/// A status check in progress: the bytes received so far, and how the
/// stream ended if it has.
#[derive(Debug, Clone)]
pub struct StatusSession {
    pub received: Vec<u8>,
    pub end: Option<ConnectionError>,
}

impl StatusSession {
    /// Where this session stands.
    pub open spec fn state(&self) -> StepSpec {
        session_spec(self.received@, self.end)
    }

    /// A session that has received nothing.
    pub fn new() -> (r: StatusSession)
        ensures
            r.received@ == Seq::<u8>::empty(),
            r.end is None,
            r.state() is Pending,
    {
        let r = StatusSession { received: Vec::new(), end: None };
        assert(next_frame_spec(r.received@) is Incomplete);
        r
    }

    /// Where this session stands, read from what it holds.
    pub fn current(&self) -> (r: StatusStep)
        ensures
            r@ == self.state(),
    {
        match exchange(self.received.as_slice()) {
            StatusStep::Pending => match &self.end {
                None => StatusStep::Pending,
                Some(e) => StatusStep::Failed(e.clone_error()),
            },
            s => s,
        }
    }

    /// Takes in what happened on the stream and says where the session now
    /// stands. Once done or failed, a session takes in nothing more.
    pub fn receive(&mut self, event: StreamEvent) -> (r: StatusStep)
        ensures
            !(old(self).state() is Pending) ==> *final(self) == *old(self) && r@ == old(self).state(),
            old(self).state() is Pending ==> {
                &&& match event {
                    StreamEvent::Data(d) => final(self).received@ == old(self).received@ + d@
                        && final(self).end == old(self).end,
                    StreamEvent::Closed => final(self).received@ == old(self).received@
                        && final(self).end == Some(ConnectionError::Closed),
                    StreamEvent::Failed(m) => final(self).received@ == old(self).received@
                        && final(self).end == Some(ConnectionError::Io(m)),
                }
                &&& r@ == final(self).state()
            },
    {
        let now = self.current();
        match now {
            StatusStep::Pending => {},
            _ => return now,
        }
        match event {
            StreamEvent::Data(d) => {
                let mut d = d;
                self.received.append(&mut d);
            },
            StreamEvent::Closed => {
                self.end = Some(ConnectionError::Closed);
            },
            StreamEvent::Failed(m) => {
                self.end = Some(ConnectionError::Io(m));
            },
        }
        self.current()
    }
}

impl ConnectionError {
    /// A copy of this error.
    pub fn clone_error(&self) -> (r: ConnectionError)
        ensures
            r == *self,
    {
        match self {
            ConnectionError::EncodeUnsupported => ConnectionError::EncodeUnsupported,
            ConnectionError::Decode(e) => ConnectionError::Decode(*e),
            ConnectionError::UnexpectedPacket(id) => ConnectionError::UnexpectedPacket(*id),
            ConnectionError::Closed => ConnectionError::Closed,
            ConnectionError::Io(m) => ConnectionError::Io(m.clone()),
            ConnectionError::ConnectFailed(m) => ConnectionError::ConnectFailed(m.clone()),
        }
    }
}

/// The protocol version sent in a status handshake: the value that asks
/// for no version in particular.
pub const STATUS_PROTOCOL_VERSION: i32 = -1;

/// The packets a status check sends, in order: a handshake from `origin`
/// that asks for the status phase, a status request, and a ping.
pub fn status_packets(origin: String) -> (r: Vec<DecodedPacket>)
    ensures
        r@.len() == 3,
        r@[0]@ == (PacketSpec::Handshake {
            protocol_version: STATUS_PROTOCOL_VERSION,
            origin: origin@,
            port: 0,
            next_state: HandshakeMode::Status,
        }),
        r@[1]@ == PacketSpec::StatusRequest,
        r@[2]@ == PacketSpec::StatusPing,
{
    let handshake = DecodedPacket::Handshake(Handshake {
        protocol_version: VarInt(STATUS_PROTOCOL_VERSION),
        origin: MCString(origin),
        port: Short(0),
        next_state: HandshakeMode::Status,
    });
    let mut r: Vec<DecodedPacket> = Vec::new();
    r.push(handshake);
    r.push(DecodedPacket::StatusRequest(StatusRequest {}));
    r.push(DecodedPacket::StatusPing(StatusPing {}));
    r
}

/// The bytes to write for `packet`: its whole frame, or an encode failure
/// where the client has no encoding for it.
pub fn send_packet_bytes(packet: &DecodedPacket) -> (r: Result<Vec<u8>, ConnectionError>)
    ensures
        match encode_spec(packet@) {
            Some((id, payload)) => r matches Ok(b) && b@ == frame_spec(id, payload),
            None => r == Err::<Vec<u8>, ConnectionError>(ConnectionError::EncodeUnsupported),
        },
{
    match packet.encode() {
        Some(e) => Ok(e.get_bytes_with_length()),
        None => Err(ConnectionError::EncodeUnsupported),
    }
}

} // verus!
