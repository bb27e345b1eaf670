use mcstatus::codec::{CodecError, MCString, Short, VarInt};

fn enc(v: i32) -> Vec<u8> {
    VarInt(v).encode()
}

#[test]
fn varint_known_encodings() {
    assert_eq!(enc(0), vec![0x00]);
    assert_eq!(enc(1), vec![0x01]);
    assert_eq!(enc(127), vec![0x7f]);
    assert_eq!(enc(128), vec![0x80, 0x01]);
    assert_eq!(enc(255), vec![0xff, 0x01]);
    assert_eq!(enc(25565), vec![0xdd, 0xc7, 0x01]);
    assert_eq!(enc(2097151), vec![0xff, 0xff, 0x7f]);
    assert_eq!(enc(2147483647), vec![0xff, 0xff, 0xff, 0xff, 0x07]);
    assert_eq!(enc(-1), vec![0xff, 0xff, 0xff, 0xff, 0x0f]);
    assert_eq!(enc(-2147483648), vec![0x80, 0x80, 0x80, 0x80, 0x08]);
}

#[test]
fn varint_round_trip_values() {
    let values = [0, 1, -1, 127, 128, 300, 25565, 756, -12345678, i32::MAX, i32::MIN];
    for v in values {
        let mut bytes = enc(v);
        let n = bytes.len();
        bytes.extend_from_slice(&[0x01, 0x02]);
        assert_eq!(VarInt::decode(&bytes), Ok((VarInt(v), n)));
    }
}

#[test]
fn varint_overlong_is_rejected() {
    assert_eq!(VarInt::decode(&[0x80; 6]), Err(CodecError::Overlong));
    assert_eq!(VarInt::decode(&[0xff; 7]), Err(CodecError::Overlong));
    assert_eq!(VarInt::decode(&[0xff, 0xff, 0xff, 0xff, 0xff]), Err(CodecError::Overlong));
}

#[test]
fn varint_empty_and_cut_short() {
    assert_eq!(VarInt::decode(&[]), Err(CodecError::Truncated));
    assert_eq!(VarInt::decode(&[0x80]), Err(CodecError::Truncated));
    assert_eq!(VarInt::decode(&[0xff, 0xff, 0xff, 0xff]), Err(CodecError::Truncated));
}

#[test]
fn mcstring_round_trip_texts() {
    for text in ["", "hello", "h\u{e9}llo \u{2713}", "{\"description\":{\"text\":\"A server\"}}"] {
        let s = MCString(text.to_string());
        let mut bytes = s.encode();
        let n = bytes.len();
        bytes.push(0x42);
        assert_eq!(MCString::decode(&bytes), Ok((s, n)));
    }
}

#[test]
fn mcstring_encoding_is_length_then_bytes() {
    assert_eq!(MCString("ab".to_string()).encode(), vec![2, b'a', b'b']);
    assert_eq!(MCString("\u{e9}".to_string()).encode(), vec![2, 0xc3, 0xa9]);
    assert_eq!(MCString(String::new()).encode(), vec![0]);
}

#[test]
fn mcstring_length_past_input_is_truncated() {
    assert_eq!(MCString::decode(&[5, b'a', b'b']), Err(CodecError::Truncated));
    assert_eq!(MCString::decode(&[0x80, 0x80, 0x01]), Err(CodecError::Truncated));
    assert_eq!(MCString::decode(&[]), Err(CodecError::Truncated));
}

#[test]
fn mcstring_errors() {
    assert_eq!(MCString::decode(&[2, 0xff, 0xfe]), Err(CodecError::InvalidUtf8));
    assert_eq!(MCString::decode(&[0xff, 0xff, 0xff, 0xff, 0x0f]), Err(CodecError::NegativeLength));
    assert_eq!(MCString::decode(&[0xff; 6]), Err(CodecError::Overlong));
}

#[test]
fn short_codec() {
    assert_eq!(Short(25565).encode(), vec![0x63, 0xdd]);
    assert_eq!(Short(0).encode(), vec![0, 0]);
    assert_eq!(Short::decode(&[0x63, 0xdd, 0x07]), Ok(Short(25565)));
    assert_eq!(Short::decode(&[0xff, 0xff]), Ok(Short(65535)));
    assert_eq!(Short::decode(&[0x01]), Err(CodecError::Truncated));
}
