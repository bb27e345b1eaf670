//! Packet frames: a length prefix, then the packet id and its payload.

use crate::codec::{extend_bytes, read_varint, varint_encoding, varint_round_trip, varint_spec, CodecError, VarInt, MAX_VARINT_LEN};
use vstd::prelude::*;

verus! {

/// The largest payload this library frames; the frame's length must fit
/// its signed 32-bit prefix.
pub const MAX_PAYLOAD_LEN: usize = 0x7fff_0000;

/// The bytes after a frame's length prefix: the id's VarInt, then the payload.
pub open spec fn body_spec(id: i32, payload: Seq<u8>) -> Seq<u8> {
    varint_encoding(id) + payload
}

/// The whole frame of a packet: the body's length as a VarInt, then the body.
pub open spec fn frame_spec(id: i32, payload: Seq<u8>) -> Seq<u8> {
    varint_encoding(body_spec(id, payload).len() as i32) + body_spec(id, payload)
}

/// A frame body taken apart: the packet id and the payload, or why the id
/// could not be read.
pub open spec fn split_body_spec(b: Seq<u8>) -> Result<(i32, Seq<u8>), CodecError> {
    match varint_spec(b) {
        Ok((id, n)) => Ok((id, b.skip(n as int))),
        Err(e) => Err(e),
    }
}

/// A whole frame taken apart, from its length prefix on. Bytes after the
/// declared length are not part of it.
pub open spec fn split_frame_spec(b: Seq<u8>) -> Result<(i32, Seq<u8>), CodecError> {
    match varint_spec(b) {
        Err(e) => Err(e),
        Ok((len, n)) => if len < 0 {
            Err(CodecError::NegativeLength)
        } else if n + len > b.len() {
            Err(CodecError::Truncated)
        } else {
            split_body_spec(b.subrange(n as int, n + len))
        },
    }
}

/// What the front of the received bytes holds.
#[derive(Debug, Clone, PartialEq, Eq)]
pub enum FrameRead {
    /// Not a whole frame yet: more bytes are needed.
    Incomplete,
    /// A frame of declared length zero, the "no packet" signal, and the
    /// bytes it takes.
    Idle { consumed: usize },
    /// A packet, and the bytes its frame takes.
    Packet { id: VarInt, payload: Vec<u8>, consumed: usize },
    /// The length prefix is malformed; the stream cannot be followed past it.
    BadLength(CodecError),
    /// The packet id inside a whole frame is malformed.
    BadId(CodecError),
}

/// Ghost form of a [`FrameRead`], over sequences.
pub enum FrameSpec {
    Incomplete,
    Idle { consumed: nat },
    Packet { id: i32, payload: Seq<u8>, consumed: nat },
    BadLength(CodecError),
    BadId(CodecError),
}

impl FrameRead {
    pub open spec fn view_spec(&self) -> FrameSpec {
        match self {
            FrameRead::Incomplete => FrameSpec::Incomplete,
            FrameRead::Idle { consumed } => FrameSpec::Idle { consumed: *consumed as nat },
            FrameRead::Packet { id, payload, consumed } => FrameSpec::Packet {
                id: id.0,
                payload: payload@,
                consumed: *consumed as nat,
            },
            FrameRead::BadLength(e) => FrameSpec::BadLength(*e),
            FrameRead::BadId(e) => FrameSpec::BadId(*e),
        }
    }
}

/// What the front of `b` holds. A length prefix cut short means that more
/// bytes are awaited; a declared length of zero is the idle signal.
pub open spec fn next_frame_spec(b: Seq<u8>) -> FrameSpec {
    match varint_spec(b) {
        Err(CodecError::Truncated) => FrameSpec::Incomplete,
        Err(e) => FrameSpec::BadLength(e),
        Ok((len, n)) => if len < 0 {
            FrameSpec::BadLength(CodecError::NegativeLength)
        } else if len == 0 {
            FrameSpec::Idle { consumed: n as nat }
        } else if n + len > b.len() {
            FrameSpec::Incomplete
        } else {
            match split_body_spec(b.subrange(n as int, n + len)) {
                Ok((id, payload)) => FrameSpec::Packet { id, payload, consumed: (n + len) as nat },
                Err(e) => FrameSpec::BadId(e),
            }
        },
    }
}

/// Every read that takes bytes takes at least one and no more than are there.
pub proof fn next_frame_progress(b: Seq<u8>)
    ensures
        next_frame_spec(b) matches FrameSpec::Idle { consumed } ==> 1 <= consumed <= b.len(),
        next_frame_spec(b) matches FrameSpec::Packet { consumed, .. } ==> 1 <= consumed <= b.len(),
{
    lemma_varint_spec_len(b);
}

/// A VarInt that reads takes at least one byte and no more than are there.
pub proof fn lemma_varint_spec_len(b: Seq<u8>)
    ensures
        varint_spec(b) matches Ok((_, n)) ==> 1 <= n <= b.len(),
{
    lemma_parse_len(b, MAX_VARINT_LEN as nat);
}

proof fn lemma_parse_len(b: Seq<u8>, k: nat)
    ensures
        crate::codec::parse_varint(b, k) matches Ok((_, n)) ==> 1 <= n <= b.len() && n <= k,
    decreases k,
{
    if k > 0 && b.len() > 0 && b[0] >= 128 {
        lemma_parse_len(b.drop_first(), (k - 1) as nat);
    }
}

/// Taking apart the frame of any packet gives back its id and payload, and
/// bytes after the frame do not change that.
pub proof fn frame_round_trip(id: i32, payload: Seq<u8>, rest: Seq<u8>)
    requires
        payload.len() <= MAX_PAYLOAD_LEN,
    ensures
        split_frame_spec(frame_spec(id, payload) + rest) == Ok::<(i32, Seq<u8>), CodecError>((id, payload)),
        next_frame_spec(frame_spec(id, payload) + rest) == (FrameSpec::Packet {
            id,
            payload,
            consumed: frame_spec(id, payload).len(),
        }),
{
    let body = body_spec(id, payload);
    let pre = varint_encoding(body.len() as i32);
    varint_round_trip(id, payload);
    varint_round_trip(body.len() as i32, body + rest);
    let b = frame_spec(id, payload) + rest;
    assert(b =~= pre + (body + rest));
    let n = pre.len();
    assert(b.subrange(n as int, (n + body.len()) as int) =~= body);
    assert(body.skip(varint_encoding(id).len() as int) =~= payload);
}

/// A frame of declared length zero is the idle signal and never a packet;
/// the frame of every packet declares a length of at least one.
pub proof fn idle_is_not_a_packet(id: i32, payload: Seq<u8>, rest: Seq<u8>)
    requires
        payload.len() <= MAX_PAYLOAD_LEN,
    ensures
        next_frame_spec(seq![0u8] + rest) == (FrameSpec::Idle { consumed: 1 }),
        body_spec(id, payload).len() >= 1,
        !(next_frame_spec(frame_spec(id, payload) + rest) is Idle),
{
    varint_round_trip(0, rest);
    assert(varint_encoding(0) =~= seq![0u8]);
    frame_round_trip(id, payload, rest);
}

/// The body of a packet's frame: the id's VarInt, then the payload.
pub fn frame_body(id: VarInt, payload: &[u8]) -> (r: Vec<u8>)
    ensures
        r@ == body_spec(id.0, payload@),
{
    let mut out = id.encode();
    extend_bytes(&mut out, payload);
    out
}

/// The whole wire frame of a packet.
pub fn frame(id: VarInt, payload: &[u8]) -> (r: Vec<u8>)
    requires
        payload@.len() <= MAX_PAYLOAD_LEN,
    ensures
        r@ == frame_spec(id.0, payload@),
{
    let mut body = frame_body(id, payload);
    proof {
        varint_round_trip(id.0, payload@);
    }
    let mut out = VarInt(body.len() as i32).encode();
    out.append(&mut body);
    out
}

/// Takes a frame body apart into the packet id and the payload.
pub fn split_body(body: &[u8]) -> (r: Result<(VarInt, Vec<u8>), CodecError>)
    ensures
        match split_body_spec(body@) {
            Ok((id, p)) => r matches Ok((i, q)) && i.0 == id && q@ == p,
            Err(e) => r == Err::<(VarInt, Vec<u8>), CodecError>(e),
        },
{
    assert(body@.skip(0) =~= body@);
    match read_varint(body, 0) {
        Ok((id, n)) => {
            let rest: &[u8] = &body[n..body.len()];
            assert(rest@ =~= body@.skip(n as int));
            let mut payload: Vec<u8> = Vec::new();
            extend_bytes(&mut payload, rest);
            Ok((VarInt(id), payload))
        },
        Err(e) => Err(e),
    }
}

/// Takes a whole frame apart, from its length prefix on, into the packet id
/// and the payload.
pub fn split_frame(bytes: &[u8]) -> (r: Result<(VarInt, Vec<u8>), CodecError>)
    ensures
        match split_frame_spec(bytes@) {
            Ok((id, p)) => r matches Ok((i, q)) && i.0 == id && q@ == p,
            Err(e) => r == Err::<(VarInt, Vec<u8>), CodecError>(e),
        },
{
    assert(bytes@.skip(0) =~= bytes@);
    let (len, n) = match read_varint(bytes, 0) {
        Ok(x) => x,
        Err(e) => return Err(e),
    };
    if len < 0 {
        return Err(CodecError::NegativeLength);
    }
    if len as usize > bytes.len() - n {
        return Err(CodecError::Truncated);
    }
    let body: &[u8] = &bytes[n..n + len as usize];
    split_body(body)
}

/// Reads what the bytes of `buf` from `pos` on hold at their front.
pub fn next_frame(buf: &[u8], pos: usize) -> (r: FrameRead)
    requires
        pos <= buf@.len(),
    ensures
        r.view_spec() == next_frame_spec(buf@.skip(pos as int)),
{
    let ghost b = buf@.skip(pos as int);
    let (len, n) = match read_varint(buf, pos) {
        Ok(x) => x,
        Err(CodecError::Truncated) => return FrameRead::Incomplete,
        Err(e) => return FrameRead::BadLength(e),
    };
    if len < 0 {
        return FrameRead::BadLength(CodecError::NegativeLength);
    }
    if len == 0 {
        return FrameRead::Idle { consumed: n };
    }
    if len as usize > buf.len() - pos - n {
        return FrameRead::Incomplete;
    }
    let start: usize = pos + n;
    let body: &[u8] = &buf[start..start + len as usize];
    assert(body@ =~= b.subrange(n as int, n + len));
    match split_body(body) {
        Ok((id, payload)) => FrameRead::Packet { id, payload, consumed: n + len as usize },
        Err(e) => FrameRead::BadId(e),
    }
}

} // verus!
