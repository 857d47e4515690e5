use celrix::protocol::codec::VcpCodec;
use celrix::protocol::command::Command;
use celrix::protocol::extended_commands::ExtendedCommand;
use celrix::protocol::frame::{Frame, FrameHeader, OpCode, ProtocolError, HEADER_SIZE, MAGIC, VERSION};
use celrix::protocol::response::Response;

#[test]
fn test_header_encode_decode() {
    let header = FrameHeader::new(OpCode::Get, 12345).with_payload_len(100);
    let mut buf: Vec<u8> = Vec::new();
    header.encode(&mut buf);

    assert_eq!(buf.len(), HEADER_SIZE);

    let decoded = FrameHeader::decode(&buf).unwrap();
    assert_eq!(decoded.opcode, OpCode::Get);
    assert_eq!(decoded.request_id, 12345);
    assert_eq!(decoded.payload_len, 100);
}

#[test]
fn test_frame_encode() {
    let frame = Frame::new(OpCode::SetKey, 42, b"test".to_vec());
    let mut buf: Vec<u8> = Vec::new();
    frame.encode(&mut buf);

    assert_eq!(buf.len(), HEADER_SIZE + 4);
}

#[test]
fn test_codec_roundtrip() {
    let mut codec = VcpCodec::new();
    let frame = Frame::new(OpCode::Get, 42, b"hello".to_vec());

    let mut buf: Vec<u8> = Vec::new();
    codec.encode(frame.clone(), &mut buf).unwrap();

    let decoded = codec.decode(&mut buf).unwrap().unwrap();
    assert_eq!(decoded.header.opcode, frame.header.opcode);
    assert_eq!(decoded.header.request_id, frame.header.request_id);
    assert_eq!(decoded.payload, frame.payload);
}

#[test]
fn test_codec_partial_decode() {
    let mut codec = VcpCodec::new();
    let frame = Frame::new(OpCode::SetKey, 1, b"test data".to_vec());

    let mut buf: Vec<u8> = Vec::new();
    codec.encode(frame, &mut buf).unwrap();

    let full = buf.clone();

    // Only header
    let mut partial = full.clone();
    partial.truncate(HEADER_SIZE);
    assert!(codec.decode(&mut partial).unwrap().is_none());

    // Full frame
    let mut full_buf = full;
    assert!(codec.decode(&mut full_buf).unwrap().is_some());
}

#[test]
fn test_ping_command() {
    let frame = Frame::ping(1);
    let cmd = Command::from_frame(&frame).unwrap();
    assert!(matches!(cmd, Command::Ping));
}

#[test]
fn test_get_command() {
    let cmd = Command::Get { key: b"mykey".to_vec() };
    let (opcode, payload) = cmd.encode();
    let frame = Frame::new(opcode, 1, payload);
    let parsed = Command::from_frame(&frame).unwrap();

    if let Command::Get { key } = parsed {
        assert_eq!(key, b"mykey".to_vec());
    } else {
        panic!("Expected Get command");
    }
}

#[test]
fn test_set_command_with_ttl() {
    let cmd = Command::SetKey { key: b"key".to_vec(), value: b"value".to_vec(), ttl: Some(3600) };
    let (opcode, payload) = cmd.encode();
    let frame = Frame::new(opcode, 1, payload);
    let parsed = Command::from_frame(&frame).unwrap();

    if let Command::SetKey { key, value, ttl } = parsed {
        assert_eq!(key, b"key".to_vec());
        assert_eq!(value, b"value".to_vec());
        assert_eq!(ttl, Some(3600));
    } else {
        panic!("Expected Set command");
    }
}

#[test]
fn test_mget_command() {
    let cmd = ExtendedCommand::MGet {
        keys: vec![b"key1".to_vec(), b"key2".to_vec(), b"key3".to_vec()],
    };
    let (opcode, payload) = cmd.encode();
    let frame = Frame::new(opcode, 1, payload);
    let parsed = ExtendedCommand::from_frame(&frame).unwrap();

    if let ExtendedCommand::MGet { keys } = parsed {
        assert_eq!(keys.len(), 3);
        assert_eq!(keys[0], b"key1".to_vec());
    } else {
        panic!("Expected MGet command");
    }
}

#[test]
fn test_incr_command() {
    let cmd = ExtendedCommand::IncrBy { key: b"counter".to_vec(), delta: 5 };
    let (opcode, payload) = cmd.encode();
    let frame = Frame::new(opcode, 1, payload);
    let parsed = ExtendedCommand::from_frame(&frame).unwrap();

    if let ExtendedCommand::IncrBy { key, delta } = parsed {
        assert_eq!(key, b"counter".to_vec());
        assert_eq!(delta, 5);
    } else {
        panic!("Expected IncrBy command");
    }
}

#[test]
fn header_bytes_are_bit_exact() {
    let frame = Frame::new(OpCode::Ping, 7, Vec::new());
    let mut buf: Vec<u8> = Vec::new();
    frame.encode(&mut buf);
    assert_eq!(
        buf,
        vec![
            0x43, 0x45, 0x4C, 0x58, 0x01, 0x01, 0x00, 0x00, 0x00, 0x00, 0x00, 0x00, 0x00, 0x00,
            0x00, 0x00, 0x00, 0x00, 0x00, 0x07, 0x00, 0x00
        ]
    );
    assert_eq!(MAGIC, [0x43, 0x45, 0x4C, 0x58]);
    assert_eq!(VERSION, 1);
}

#[test]
fn header_declares_payload_length() {
    let frame = Frame::new(OpCode::Value, 0x0102030405060708, vec![9u8; 300]);
    let mut buf: Vec<u8> = Vec::new();
    frame.encode(&mut buf);
    assert_eq!(&buf[0..5], &[0x43, 0x45, 0x4C, 0x58, 0x01]);
    assert_eq!(&buf[8..12], &[0x00, 0x00, 0x01, 0x2C]);
    assert_eq!(&buf[12..20], &[1, 2, 3, 4, 5, 6, 7, 8]);
    assert_eq!(buf.len() - HEADER_SIZE, 300);
}

#[test]
fn every_opcode_has_its_wire_byte() {
    let table: Vec<(u8, OpCode)> = vec![
        (0x01, OpCode::Ping),
        (0x02, OpCode::Pong),
        (0x03, OpCode::Get),
        (0x04, OpCode::SetKey),
        (0x05, OpCode::Del),
        (0x06, OpCode::Exists),
        (0x07, OpCode::MGet),
        (0x08, OpCode::MSet),
        (0x09, OpCode::MDel),
        (0x0A, OpCode::Incr),
        (0x0B, OpCode::Decr),
        (0x0C, OpCode::IncrBy),
        (0x0D, OpCode::DecrBy),
        (0x0E, OpCode::Scan),
        (0x0F, OpCode::Keys),
        (0x10, OpCode::Okay),
        (0x11, OpCode::Error),
        (0x12, OpCode::Value),
        (0x13, OpCode::Nil),
        (0x14, OpCode::Integer),
        (0x15, OpCode::Array),
        (0x20, OpCode::VAdd),
        (0x21, OpCode::VSearch),
    ];
    for (byte, op) in table {
        assert_eq!(OpCode::from_u8(byte), Some(op));
        assert_eq!(op.code(), byte);
    }
    assert_eq!(OpCode::from_u8(0x00), None);
    assert_eq!(OpCode::from_u8(0x16), None);
    assert_eq!(OpCode::from_u8(0xFF), None);
}

#[test]
fn decode_rejects_bad_magic() {
    let mut buf = vec![0u8; 22];
    buf[5] = 0x01;
    assert_eq!(FrameHeader::decode(&buf), Err(ProtocolError::InvalidMagic));
    let mut codec = VcpCodec::new();
    assert_eq!(codec.decode(&mut buf), Err(ProtocolError::InvalidMagic));
    assert!(buf.is_empty());
}

#[test]
fn decode_rejects_unknown_opcode() {
    let mut buf: Vec<u8> = Vec::new();
    Frame::ping(1).encode(&mut buf);
    buf[5] = 0x7F;
    assert_eq!(FrameHeader::decode(&buf), Err(ProtocolError::InvalidOpcode(0x7F)));
    assert_eq!(ProtocolError::InvalidOpcode(0x7F).message(), "Invalid opcode: 127");
}

#[test]
fn decode_rejects_oversized_payload() {
    let mut codec = VcpCodec::with_max_payload(8);
    let mut buf: Vec<u8> = Vec::new();
    Frame::new(OpCode::Value, 1, vec![0u8; 9]).encode(&mut buf);
    assert_eq!(codec.decode(&mut buf), Err(ProtocolError::PayloadTooLarge(9)));
    let mut ok: Vec<u8> = Vec::new();
    Frame::new(OpCode::Value, 1, vec![0u8; 8]).encode(&mut ok);
    assert!(codec.decode(&mut ok).unwrap().is_some());
}

#[test]
fn decode_reports_truncation_at_end_of_stream() {
    let mut codec = VcpCodec::new();
    let mut buf: Vec<u8> = Vec::new();
    Frame::new(OpCode::Get, 1, b"abcdef".to_vec()).encode(&mut buf);
    buf.truncate(10);
    assert_eq!(codec.decode_eof(&mut buf), Err(ProtocolError::TruncatedFrame));
    let mut codec = VcpCodec::new();
    let mut empty: Vec<u8> = Vec::new();
    assert_eq!(codec.decode_eof(&mut empty), Ok(None));
    let mut codec = VcpCodec::new();
    let mut buf: Vec<u8> = Vec::new();
    Frame::new(OpCode::Get, 1, b"abcdef".to_vec()).encode(&mut buf);
    buf.truncate(25);
    assert_eq!(codec.decode_eof(&mut buf), Err(ProtocolError::TruncatedFrame));
}

#[test]
fn decode_yields_frames_one_by_one() {
    let mut codec = VcpCodec::new();
    let mut buf: Vec<u8> = Vec::new();
    Frame::new(OpCode::Get, 1, b"a".to_vec()).encode(&mut buf);
    Frame::new(OpCode::Del, 2, b"bc".to_vec()).encode(&mut buf);
    let first = codec.decode(&mut buf).unwrap().unwrap();
    assert_eq!(first, Frame::new(OpCode::Get, 1, b"a".to_vec()));
    let second = codec.decode(&mut buf).unwrap().unwrap();
    assert_eq!(second, Frame::new(OpCode::Del, 2, b"bc".to_vec()));
    assert_eq!(codec.decode(&mut buf), Ok(None));
}

#[test]
fn decode_byte_by_byte() {
    let frame = Frame::new(OpCode::SetKey, 99, b"piecewise".to_vec());
    let mut wire: Vec<u8> = Vec::new();
    frame.encode(&mut wire);
    let mut codec = VcpCodec::new();
    let mut buf: Vec<u8> = Vec::new();
    let mut got = None;
    for (i, b) in wire.iter().enumerate() {
        buf.push(*b);
        let r = codec.decode(&mut buf).unwrap();
        if i + 1 < wire.len() {
            assert!(r.is_none());
        } else {
            got = r;
        }
    }
    assert_eq!(got, Some(frame));
}

#[test]
fn command_roundtrip_all_variants() {
    let commands = vec![
        Command::Ping,
        Command::Get { key: b"k".to_vec() },
        Command::SetKey { key: b"k".to_vec(), value: b"v".to_vec(), ttl: None },
        Command::SetKey { key: b"k".to_vec(), value: Vec::new(), ttl: Some(1) },
        Command::Del { key: b"gone".to_vec() },
        Command::Exists { key: b"there".to_vec() },
        Command::VAdd { key: b"q1".to_vec(), vector: vec![0x3F800000, 0, 0x80000000] },
        Command::VSearch { vector: vec![0x3F733333, 0x3DCCCCCD, 0], k: 5 },
    ];
    for cmd in commands {
        let (opcode, payload) = cmd.encode();
        let frame = Frame::new(opcode, 3, payload);
        assert_eq!(Command::from_frame(&frame), Ok(cmd));
    }
}

#[test]
fn command_payload_layout() {
    let (op, payload) =
        Command::SetKey { key: b"hello".to_vec(), value: b"world".to_vec(), ttl: None }.encode();
    assert_eq!(op, OpCode::SetKey);
    let mut expected = vec![0, 0, 0, 5];
    expected.extend_from_slice(b"hello");
    expected.extend_from_slice(&[0, 0, 0, 5]);
    expected.extend_from_slice(b"world");
    expected.extend_from_slice(&[0; 8]);
    assert_eq!(payload, expected);

    let (op, payload) = Command::VSearch { vector: vec![0x3F800000], k: 7 }.encode();
    assert_eq!(op, OpCode::VSearch);
    assert_eq!(payload, vec![0, 0, 0, 1, 0x3F, 0x80, 0, 0, 0, 0, 0, 7]);
}

#[test]
fn vsearch_without_k_defaults_to_ten() {
    let payload = vec![0, 0, 0, 1, 0x3F, 0x80, 0, 0];
    let frame = Frame::new(OpCode::VSearch, 1, payload);
    assert_eq!(
        Command::from_frame(&frame),
        Ok(Command::VSearch { vector: vec![0x3F800000], k: 10 })
    );
}

#[test]
fn set_with_zero_ttl_has_no_expiry() {
    let (opcode, payload) =
        Command::SetKey { key: b"k".to_vec(), value: b"v".to_vec(), ttl: Some(0) }.encode();
    let frame = Frame::new(opcode, 1, payload);
    assert_eq!(
        Command::from_frame(&frame),
        Ok(Command::SetKey { key: b"k".to_vec(), value: b"v".to_vec(), ttl: None })
    );
}

#[test]
fn command_parsing_is_strict_about_lengths() {
    let short_prefix = Frame::new(OpCode::Get, 1, vec![0, 0, 1]);
    assert_eq!(Command::from_frame(&short_prefix), Err(ProtocolError::MissingLengthPrefix));
    let short_key = Frame::new(OpCode::Get, 1, vec![0, 0, 0, 4, b'a', b'b']);
    assert_eq!(Command::from_frame(&short_key), Err(ProtocolError::MissingPayload));
    let no_dimension = Frame::new(OpCode::VAdd, 1, vec![0, 0, 0, 1, b'k', 0, 0]);
    assert_eq!(Command::from_frame(&no_dimension), Err(ProtocolError::MissingField));
    let short_vector = Frame::new(OpCode::VSearch, 1, vec![0, 0, 0, 2, 0, 0, 0, 0, 1, 2]);
    assert_eq!(Command::from_frame(&short_vector), Err(ProtocolError::MissingVectorData));
    let not_a_command = Frame::new(OpCode::Pong, 1, Vec::new());
    assert_eq!(
        Command::from_frame(&not_a_command),
        Err(ProtocolError::UnexpectedCommandOpcode(OpCode::Pong))
    );
    assert_eq!(
        ProtocolError::UnexpectedCommandOpcode(OpCode::Pong).message(),
        "Unexpected opcode for command: Pong"
    );
}

#[test]
fn response_roundtrip_all_variants() {
    let responses = vec![
        Response::Okay,
        Response::Nil,
        Response::Pong,
        Response::Value(b"world".to_vec()),
        Response::Integer(1),
        Response::Integer(-2),
        Response::Integer(i64::MIN),
        Response::Integer(i64::MAX),
        Response::Error("queue full".to_string()),
        Response::Array(vec![]),
        Response::Array(vec![b"q1".to_vec(), Vec::new(), b"q3".to_vec()]),
    ];
    for r in responses {
        let frame = r.to_frame(11);
        assert_eq!(frame.header.request_id, 11);
        assert_eq!(frame.header.payload_len as usize, frame.payload.len());
        assert_eq!(Response::from_frame(&frame), Ok(r));
    }
}

#[test]
fn response_payload_layout() {
    assert_eq!(Response::Integer(1).to_frame(1).payload, vec![0, 0, 0, 0, 0, 0, 0, 1]);
    assert_eq!(Response::Integer(-1).to_frame(1).payload, vec![0xFF; 8]);
    assert_eq!(
        Response::Array(vec![b"q1".to_vec()]).to_frame(1).payload,
        vec![0, 0, 0, 1, 0, 0, 0, 2, b'q', b'1']
    );
    assert_eq!(Response::Error("no".to_string()).to_frame(1).payload, b"no".to_vec());
    assert_eq!(Response::Okay.to_frame(1).header.opcode, OpCode::Okay);
}

#[test]
fn response_parsing_errors() {
    assert_eq!(
        Response::from_frame(&Frame::new(OpCode::Integer, 1, vec![0; 7])),
        Err(ProtocolError::InvalidInteger)
    );
    assert_eq!(
        Response::from_frame(&Frame::new(OpCode::Array, 1, vec![0, 0, 1])),
        Err(ProtocolError::InvalidArray)
    );
    assert_eq!(
        Response::from_frame(&Frame::new(OpCode::Array, 1, vec![0, 0, 0, 1, 0, 0])),
        Err(ProtocolError::MissingArrayData)
    );
    assert_eq!(
        Response::from_frame(&Frame::new(OpCode::Array, 1, vec![0, 0, 0, 1, 0, 0, 0, 3, 1])),
        Err(ProtocolError::MissingItemData)
    );
    assert_eq!(
        Response::from_frame(&Frame::new(OpCode::Get, 1, vec![])),
        Err(ProtocolError::UnexpectedResponseOpcode(OpCode::Get))
    );
}

#[test]
fn response_error_with_invalid_utf8_is_replaced() {
    let frame = Frame::new(OpCode::Error, 1, vec![b'a', 0xFF, b'b']);
    assert_eq!(Response::from_frame(&frame), Ok(Response::Error("a\u{FFFD}b".to_string())));
}

#[test]
fn response_display_strings() {
    assert_eq!(Response::Okay.to_display_string(), "OK");
    assert_eq!(Response::Nil.to_display_string(), "(nil)");
    assert_eq!(Response::Pong.to_display_string(), "PONG");
    assert_eq!(Response::Value(b"world".to_vec()).to_display_string(), "\"world\"");
    assert_eq!(Response::Integer(-42).to_display_string(), "(integer) -42");
    assert_eq!(Response::Integer(i64::MIN).to_display_string(), "(integer) -9223372036854775808");
    assert_eq!(Response::Error("bad".to_string()).to_display_string(), "(error) bad");
    assert_eq!(
        Response::Array(vec![b"a".to_vec(), b"b".to_vec()]).to_display_string(),
        "[\"a\", \"b\"]"
    );
    assert_eq!(Response::Array(vec![]).to_display_string(), "[]");
}

#[test]
fn extended_roundtrip_all_variants() {
    let commands = vec![
        ExtendedCommand::MGet { keys: vec![] },
        ExtendedCommand::MSet {
            pairs: vec![(b"a".to_vec(), b"1".to_vec()), (b"b".to_vec(), b"22".to_vec())],
        },
        ExtendedCommand::MDel { keys: vec![b"x".to_vec()] },
        ExtendedCommand::Incr { key: b"n".to_vec() },
        ExtendedCommand::Decr { key: b"n".to_vec() },
        ExtendedCommand::IncrBy { key: b"n".to_vec(), delta: -7 },
        ExtendedCommand::DecrBy { key: b"n".to_vec(), delta: i64::MAX },
        ExtendedCommand::Scan { cursor: 17, pattern: None, count: 100 },
        ExtendedCommand::Scan { cursor: 0, pattern: Some(b"user:*".to_vec()), count: 1 },
        ExtendedCommand::Keys { pattern: None },
        ExtendedCommand::Keys { pattern: Some(b"*".to_vec()) },
    ];
    for cmd in commands {
        let (opcode, payload) = cmd.encode();
        let frame = Frame::new(opcode, 1, payload);
        assert_eq!(ExtendedCommand::from_frame(&frame), Ok(cmd));
    }
}

#[test]
fn extended_parsing_errors() {
    assert_eq!(
        ExtendedCommand::from_frame(&Frame::new(OpCode::MGet, 1, vec![0, 0])),
        Err(ProtocolError::MissingCount)
    );
    assert_eq!(
        ExtendedCommand::from_frame(&Frame::new(OpCode::MGet, 1, vec![0, 0, 0, 1])),
        Err(ProtocolError::MissingLengthPrefix)
    );
    assert_eq!(
        ExtendedCommand::from_frame(&Frame::new(OpCode::IncrBy, 1, vec![0, 0, 0, 1, b'k', 0])),
        Err(ProtocolError::MissingField)
    );
    assert_eq!(
        ExtendedCommand::from_frame(&Frame::new(OpCode::Scan, 1, vec![0; 11])),
        Err(ProtocolError::MissingField)
    );
    assert_eq!(
        ExtendedCommand::from_frame(&Frame::new(OpCode::Get, 1, vec![])),
        Err(ProtocolError::UnknownExtendedOpcode(OpCode::Get))
    );
}

#[test]
fn errors_tell_short_data_from_wrong_data() {
    for e in [
        ProtocolError::TruncatedFrame,
        ProtocolError::MissingLengthPrefix,
        ProtocolError::MissingPayload,
        ProtocolError::MissingVectorData,
        ProtocolError::MissingField,
        ProtocolError::MissingCount,
        ProtocolError::MissingArrayData,
        ProtocolError::MissingItemData,
    ] {
        assert!(e.is_shortfall(), "{:?}", e);
    }
    for e in [
        ProtocolError::InvalidMagic,
        ProtocolError::InvalidOpcode(0),
        ProtocolError::PayloadTooLarge(9),
        ProtocolError::InvalidInteger,
        ProtocolError::InvalidArray,
        ProtocolError::UnexpectedCommandOpcode(OpCode::Pong),
        ProtocolError::UnexpectedResponseOpcode(OpCode::Ping),
        ProtocolError::UnknownExtendedOpcode(OpCode::Ping),
    ] {
        assert!(!e.is_shortfall(), "{:?}", e);
    }
}
