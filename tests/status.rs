use mcstatus::codec::{CodecError, MCString, Short, VarInt};
use mcstatus::frame::frame;
use mcstatus::packet::{
    decode_packet, DecodedPacket, EncodedPacket, Field, Handshake, HandshakeMode, PacketError, ServerState,
    StatusPing, StatusPong, StatusRequest, StatusResponse,
};
use mcstatus::session::{
    exchange, send_packet_bytes, status_packets, ConnectionError, StatusSession, StatusStep, StreamEvent,
};

const JSON: &str = "{\"description\":{\"text\":\"A server\"}}";

fn response_frame(json: &str) -> Vec<u8> {
    frame(VarInt(0), &MCString(json.to_string()).encode())
}

fn done_with(step: StatusStep) -> String {
    match step {
        StatusStep::Done(r) => r.response.0,
        other => panic!("expected a status, got {:?}", other),
    }
}

fn failed_with(step: StatusStep) -> ConnectionError {
    match step {
        StatusStep::Failed(e) => e,
        other => panic!("expected a failure, got {:?}", other),
    }
}

#[test]
fn status_single_response() {
    let mut session = StatusSession::new();
    let step = session.receive(StreamEvent::Data(response_frame(JSON)));
    assert_eq!(done_with(step), JSON);
}

#[test]
fn status_skips_pong() {
    let mut bytes = frame(VarInt(1), &[]);
    bytes.extend(response_frame(JSON));
    let mut session = StatusSession::new();
    assert_eq!(done_with(session.receive(StreamEvent::Data(bytes))), JSON);
}

#[test]
fn status_pong_then_response_in_separate_reads() {
    let mut session = StatusSession::new();
    assert!(matches!(session.receive(StreamEvent::Data(frame(VarInt(1), &[1, 2]))), StatusStep::Pending));
    assert_eq!(done_with(session.receive(StreamEvent::Data(response_frame(JSON)))), JSON);
}

#[test]
fn status_closed_stream() {
    let mut session = StatusSession::new();
    assert_eq!(failed_with(session.receive(StreamEvent::Closed)), ConnectionError::Closed);
}

#[test]
fn status_closed_mid_frame() {
    let whole = response_frame(JSON);
    let mut session = StatusSession::new();
    assert!(matches!(session.receive(StreamEvent::Data(whole[..5].to_vec())), StatusStep::Pending));
    assert_eq!(failed_with(session.receive(StreamEvent::Closed)), ConnectionError::Closed);
}

#[test]
fn status_invalid_length_prefix() {
    let mut session = StatusSession::new();
    let step = session.receive(StreamEvent::Data(vec![0xff, 0xff, 0xff, 0xff, 0xff, 0x01, 0x00]));
    assert_eq!(
        failed_with(step),
        ConnectionError::Decode(PacketError { field: Field::Length, cause: CodecError::Overlong })
    );
    assert!(matches!(session.receive(StreamEvent::Data(response_frame(JSON))), StatusStep::Failed(_)));
}

#[test]
fn status_response_in_pieces() {
    let whole = response_frame(JSON);
    let mut session = StatusSession::new();
    for chunk in whole[..whole.len() - 1].chunks(3) {
        assert!(matches!(session.receive(StreamEvent::Data(chunk.to_vec())), StatusStep::Pending));
    }
    let last = whole[whole.len() - 1..].to_vec();
    assert_eq!(done_with(session.receive(StreamEvent::Data(last))), JSON);
}

#[test]
fn status_idle_frames_are_passed_over() {
    let mut bytes = vec![0, 0];
    bytes.extend(response_frame("{}"));
    assert_eq!(done_with(exchange(&bytes)), "{}");
}

#[test]
fn status_unexpected_packet() {
    let bytes = frame(VarInt(5), &[1]);
    assert_eq!(failed_with(exchange(&bytes)), ConnectionError::UnexpectedPacket(VarInt(5)));
}

#[test]
fn status_bad_json_field() {
    let bytes = frame(VarInt(0), &[9, b'{']);
    assert_eq!(
        failed_with(exchange(&bytes)),
        ConnectionError::Decode(PacketError { field: Field::Json, cause: CodecError::Truncated })
    );
}

#[test]
fn status_io_failure() {
    let mut session = StatusSession::new();
    let step = session.receive(StreamEvent::Failed("reset".to_string()));
    assert_eq!(failed_with(step), ConnectionError::Io("reset".to_string()));
}

#[test]
fn session_done_takes_nothing_more() {
    let mut session = StatusSession::new();
    session.receive(StreamEvent::Data(response_frame(JSON)));
    let held = session.received.clone();
    assert_eq!(done_with(session.receive(StreamEvent::Closed)), JSON);
    assert_eq!(session.received, held);
    assert!(session.end.is_none());
}

#[test]
fn status_packets_in_order() {
    let packets = status_packets("127.0.0.1".to_string());
    assert_eq!(packets.len(), 3);
    match &packets[0] {
        DecodedPacket::Handshake(h) => {
            assert_eq!(h.protocol_version, VarInt(-1));
            assert_eq!(h.origin, MCString("127.0.0.1".to_string()));
            assert_eq!(h.port, Short(0));
            assert_eq!(h.next_state, HandshakeMode::Status);
        }
        other => panic!("expected a handshake, got {:?}", other),
    }
    assert!(matches!(packets[1], DecodedPacket::StatusRequest(_)));
    assert!(matches!(packets[2], DecodedPacket::StatusPing(_)));
}

#[test]
fn handshake_wire_bytes() {
    let h = DecodedPacket::Handshake(Handshake {
        protocol_version: VarInt(-1),
        origin: MCString("ab".to_string()),
        port: Short(25565),
        next_state: HandshakeMode::Status,
    });
    let bytes = send_packet_bytes(&h).unwrap();
    assert_eq!(bytes, vec![12, 0, 0xff, 0xff, 0xff, 0xff, 0x0f, 2, b'a', b'b', 0x63, 0xdd, 1]);
    let login = DecodedPacket::Handshake(Handshake {
        protocol_version: VarInt(757),
        origin: MCString(String::new()),
        port: Short(1),
        next_state: HandshakeMode::Login,
    });
    assert_eq!(send_packet_bytes(&login).unwrap(), vec![7, 0, 0xf5, 0x05, 0, 0, 1, 2]);
}

#[test]
fn request_and_ping_wire_bytes() {
    assert_eq!(send_packet_bytes(&DecodedPacket::StatusRequest(StatusRequest {})).unwrap(), vec![1, 0]);
    assert_eq!(send_packet_bytes(&DecodedPacket::StatusPing(StatusPing {})).unwrap(), vec![1, 1]);
}

#[test]
fn incoming_packets_are_not_encodable() {
    let resp = DecodedPacket::StatusResponse(StatusResponse { response: MCString("{}".to_string()) });
    assert!(resp.encode().is_none());
    assert_eq!(send_packet_bytes(&resp), Err(ConnectionError::EncodeUnsupported));
    let pong = DecodedPacket::StatusPong(StatusPong { payload: vec![] });
    assert_eq!(send_packet_bytes(&pong), Err(ConnectionError::EncodeUnsupported));
    let other = DecodedPacket::Unrecognized(EncodedPacket { id: VarInt(3), payload: vec![] });
    assert!(other.encode().is_none());
}

#[test]
fn oversized_origin_is_not_encodable() {
    let h = DecodedPacket::Handshake(Handshake {
        protocol_version: VarInt(-1),
        origin: MCString("x".repeat(40000)),
        port: Short(0),
        next_state: HandshakeMode::Status,
    });
    assert_eq!(send_packet_bytes(&h), Err(ConnectionError::EncodeUnsupported));
}

#[test]
fn encoded_packet_framing() {
    let e = EncodedPacket { id: VarInt(0), payload: vec![1, 2] };
    assert_eq!(e.get_bytes_with_length(), vec![3, 0, 1, 2]);
}

#[test]
fn decode_by_state_and_id() {
    let json = MCString("{}".to_string()).encode();
    match decode_packet(VarInt(0), &json, &ServerState::Status) {
        Ok(DecodedPacket::StatusResponse(r)) => assert_eq!(r.response.0, "{}"),
        other => panic!("unexpected {:?}", other),
    }
    match decode_packet(VarInt(1), &[1, 2, 3], &ServerState::Status) {
        Ok(DecodedPacket::StatusPong(p)) => assert_eq!(p.payload, vec![1, 2, 3]),
        other => panic!("unexpected {:?}", other),
    }
    match decode_packet(VarInt(0), &json, &ServerState::Login) {
        Ok(DecodedPacket::Unrecognized(e)) => {
            assert_eq!(e.id, VarInt(0));
            assert_eq!(e.payload, json);
        }
        other => panic!("unexpected {:?}", other),
    }
    assert!(matches!(
        decode_packet(VarInt(7), &[], &ServerState::Status),
        Ok(DecodedPacket::Unrecognized(_))
    ));
    match decode_packet(VarInt(0), &[2, 0xff, 0xff], &ServerState::Status) {
        Err(e) => assert_eq!(e, PacketError { field: Field::Json, cause: CodecError::InvalidUtf8 }),
        other => panic!("unexpected {:?}", other),
    }
}
