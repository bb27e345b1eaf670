//! The packet catalog: the packets of the status exchange, how the ones the
//! client sends are encoded and how the ones it receives are decoded.

use crate::codec::{
    extend_bytes, mcstring_encoding, mcstring_spec, read_mcstring, short_bytes, varint_encoding,
    CodecError, MCString, Short, VarInt, MAX_STRING_BYTES,
};
use crate::frame::{frame, frame_spec, MAX_PAYLOAD_LEN};
use vstd::prelude::*;
use vstd::utf8::encode_utf8;

verus! {

/// The phase of the protocol; it decides which table a packet id is read in.
#[derive(Debug, Clone, Copy, PartialEq, Eq, Structural)]
pub enum ServerState {
    Handshake,
    Status,
    Login,
    Play,
}

/// The phase that a handshake asks the server to move to.
#[derive(Debug, Clone, Copy, PartialEq, Eq, Structural)]
pub enum HandshakeMode {
    Status,
    Login,
}

/// The wire value of a handshake's next phase.
pub open spec fn mode_value(m: HandshakeMode) -> i32 {
    match m {
        HandshakeMode::Status => 1,
        HandshakeMode::Login => 2,
    }
}

/// The first packet a client sends.
#[derive(Debug, Clone)]
pub struct Handshake {
    pub protocol_version: VarInt,
    pub origin: MCString,
    pub port: Short,
    pub next_state: HandshakeMode,
}

/// Asks the server for its status.
#[derive(Debug, Clone, Copy)]
pub struct StatusRequest {}

/// The client's ping; this client sends it with an empty payload.
#[derive(Debug, Clone, Copy)]
pub struct StatusPing {}

/// The server's status, as JSON text.
#[derive(Debug, Clone)]
pub struct StatusResponse {
    pub response: MCString,
}

/// The server's answer to a ping.
#[derive(Debug, Clone)]
pub struct StatusPong {
    pub payload: Vec<u8>,
}

/// A packet id and its payload, as they travel in a frame.
#[derive(Debug, Clone)]
pub struct EncodedPacket {
    pub id: VarInt,
    pub payload: Vec<u8>,
}

/// A packet of the status exchange, or one this catalog does not know.
#[derive(Debug, Clone)]
pub enum DecodedPacket {
    Handshake(Handshake),
    StatusRequest(StatusRequest),
    StatusPing(StatusPing),
    StatusResponse(StatusResponse),
    StatusPong(StatusPong),
    /// A packet whose id has no entry in the table of the current phase.
    Unrecognized(EncodedPacket),
}

/// Ghost form of a [`DecodedPacket`].
pub enum PacketSpec {
    Handshake { protocol_version: i32, origin: Seq<char>, port: u16, next_state: HandshakeMode },
    StatusRequest,
    StatusPing,
    StatusResponse(Seq<char>),
    StatusPong(Seq<u8>),
    Unrecognized(i32, Seq<u8>),
}

impl View for DecodedPacket {
    type V = PacketSpec;

    open spec fn view(&self) -> PacketSpec {
        match self {
            DecodedPacket::Handshake(h) => PacketSpec::Handshake {
                protocol_version: h.protocol_version.0,
                origin: h.origin.0@,
                port: h.port.0,
                next_state: h.next_state,
            },
            DecodedPacket::StatusRequest(_) => PacketSpec::StatusRequest,
            DecodedPacket::StatusPing(_) => PacketSpec::StatusPing,
            DecodedPacket::StatusResponse(r) => PacketSpec::StatusResponse(r.response.0@),
            DecodedPacket::StatusPong(p) => PacketSpec::StatusPong(p.payload@),
            DecodedPacket::Unrecognized(e) => PacketSpec::Unrecognized(e.id.0, e.payload@),
        }
    }
}

/// A field of a packet, named in decode errors.
#[derive(Debug, Clone, Copy, PartialEq, Eq, Structural)]
pub enum Field {
    /// The length prefix of a frame.
    Length,
    /// The packet id inside a frame.
    PacketId,
    /// The JSON text of a status response.
    Json,
}

/// A packet field that could not be read, and why.
#[derive(Debug, Clone, Copy, PartialEq, Eq, Structural)]
pub struct PacketError {
    pub field: Field,
    pub cause: CodecError,
}

/// The payload of a handshake: version, origin, port and next phase.
pub open spec fn handshake_payload(protocol_version: i32, origin: Seq<char>, port: u16, next_state: HandshakeMode) -> Seq<u8> {
    varint_encoding(protocol_version) + mcstring_encoding(origin) + short_bytes(port)
        + varint_encoding(mode_value(next_state))
}

/// The id and payload a packet is sent with, or `None` for a packet the
/// client does not send (or a handshake whose origin is too long to send).
pub open spec fn encode_spec(p: PacketSpec) -> Option<(i32, Seq<u8>)> {
    match p {
        PacketSpec::Handshake { protocol_version, origin, port, next_state } => {
            if encode_utf8(origin).len() <= MAX_STRING_BYTES {
                Some((0, handshake_payload(protocol_version, origin, port, next_state)))
            } else {
                None
            }
        },
        PacketSpec::StatusRequest => Some((0, Seq::empty())),
        PacketSpec::StatusPing => Some((1, Seq::empty())),
        _ => None,
    }
}

/// The packet that `id` and `payload` stand for in phase `state`, or the
/// field that could not be read.
pub open spec fn decode_spec(state: ServerState, id: i32, payload: Seq<u8>) -> Result<PacketSpec, PacketError> {
    if state == ServerState::Status && id == 0 {
        match mcstring_spec(payload) {
            Ok((json, _)) => Ok(PacketSpec::StatusResponse(json)),
            Err(e) => Err(PacketError { field: Field::Json, cause: e }),
        }
    } else if state == ServerState::Status && id == 1 {
        Ok(PacketSpec::StatusPong(payload))
    } else {
        Ok(PacketSpec::Unrecognized(id, payload))
    }
}

impl EncodedPacket {
    /// The whole wire frame of this packet.
    pub fn get_bytes_with_length(&self) -> (r: Vec<u8>)
        requires
            self.payload@.len() <= MAX_PAYLOAD_LEN,
        ensures
            r@ == frame_spec(self.id.0, self.payload@),
    {
        frame(self.id, self.payload.as_slice())
    }
}

impl DecodedPacket {
    /// The id and payload this packet is sent with, or `None` where the
    /// client has no encoding for it.
    pub fn encode(&self) -> (r: Option<EncodedPacket>)
        ensures
            match encode_spec(self@) {
                Some((id, payload)) => r matches Some(e) && e.id.0 == id && e.payload@ == payload
                    && e.payload@.len() <= MAX_PAYLOAD_LEN,
                None => r is None,
            },
    {
        match self {
            DecodedPacket::Handshake(h) => {
                let text: &[u8] = h.origin.0.as_str().as_bytes();
                if text.len() > MAX_STRING_BYTES {
                    return None;
                }
                let mut payload = h.protocol_version.encode();
                let mut origin = h.origin.encode();
                payload.append(&mut origin);
                let mut port = h.port.encode();
                payload.append(&mut port);
                let mode = match h.next_state {
                    HandshakeMode::Status => VarInt(1),
                    HandshakeMode::Login => VarInt(2),
                };
                let mut next = mode.encode();
                payload.append(&mut next);
                proof {
                    crate::codec::varint_round_trip(h.protocol_version.0, Seq::empty());
                    crate::codec::varint_round_trip(mode.0, Seq::empty());
                    crate::codec::varint_round_trip(text@.len() as i32, Seq::empty());
                    assert(varint_encoding(h.protocol_version.0) + Seq::<u8>::empty() =~= varint_encoding(h.protocol_version.0));
                    assert(varint_encoding(mode.0) + Seq::<u8>::empty() =~= varint_encoding(mode.0));
                    assert(varint_encoding(text@.len() as i32) + Seq::<u8>::empty() =~= varint_encoding(text@.len() as i32));
                }
                Some(EncodedPacket { id: VarInt(0), payload })
            },
            DecodedPacket::StatusRequest(_) => Some(EncodedPacket { id: VarInt(0), payload: Vec::new() }),
            DecodedPacket::StatusPing(_) => Some(EncodedPacket { id: VarInt(1), payload: Vec::new() }),
            _ => None,
        }
    }
}

/// Reads the packet that `id` and `payload` stand for in phase `state`.
/// An id the phase's table does not hold gives an unrecognized packet.
pub fn decode_packet(id: VarInt, payload: &[u8], state: &ServerState) -> (r: Result<DecodedPacket, PacketError>)
    ensures
        match decode_spec(*state, id.0, payload@) {
            Ok(p) => r matches Ok(q) && q@ == p,
            Err(e) => r == Err::<DecodedPacket, PacketError>(e),
        },
{
    let mut bytes: Vec<u8> = Vec::new();
    extend_bytes(&mut bytes, payload);
    assert(bytes@ =~= payload@);
    match state {
        ServerState::Status => {
            if id.0 == 0 {
                assert(payload@.skip(0) =~= payload@);
                match read_mcstring(payload, 0) {
                    Ok((json, _)) => Ok(DecodedPacket::StatusResponse(StatusResponse { response: MCString(json) })),
                    Err(e) => Err(PacketError { field: Field::Json, cause: e }),
                }
            } else if id.0 == 1 {
                Ok(DecodedPacket::StatusPong(StatusPong { payload: bytes }))
            } else {
                Ok(DecodedPacket::Unrecognized(EncodedPacket { id, payload: bytes }))
            }
        },
        _ => Ok(DecodedPacket::Unrecognized(EncodedPacket { id, payload: bytes })),
    }
}

} // verus!
