use celrix::cli::{
    command_from_words, next_request_id, parse_command, parse_u64, split_words, CliError, CliVerb,
    NumberError,
};
use celrix::client::{expect_flag, expect_keys, expect_ok, expect_pong, expect_value, Client, Error};
use celrix::protocol::command::Command;
use celrix::protocol::frame::{Frame, OpCode};
use celrix::protocol::response::Response;
use celrix::text::{contains_text, decimal, signed_decimal, str_eq};
use celrix::text_map::TextMap;
use celrix::wire::{
    bytes_eq, copy_range, get_i64, get_u16, get_u32, get_u32_le, get_u64, get_u64_le, put_i64,
    put_slice, put_u16, put_u32, put_u32_le, put_u64, put_u64_le,
};

#[test]
fn client_requests_count_up() {
    let mut client = Client::new();
    let first = client.request(&Client::set_command("hello", "world", None));
    assert_eq!(first.header.request_id, 1);
    assert_eq!(first.header.opcode, OpCode::SetKey);
    assert_eq!(
        Command::from_frame(&first),
        Ok(Command::SetKey { key: b"hello".to_vec(), value: b"world".to_vec(), ttl: None })
    );
    let second = client.request(&Client::get_command("hello"));
    assert_eq!(second.header.request_id, 2);
    assert_eq!(second.payload, vec![0, 0, 0, 5, b'h', b'e', b'l', b'l', b'o']);
    assert_eq!(client.request(&Client::del_command("k")).header.opcode, OpCode::Del);
    assert_eq!(client.request(&Client::exists_command("k")).header.request_id, 4);
    assert_eq!(client.request(&Command::Ping).header.opcode, OpCode::Ping);
}

#[test]
fn client_reads_responses_from_pieces() {
    let mut client = Client::new();
    let mut wire: Vec<u8> = Vec::new();
    Response::Value(b"world".to_vec()).to_frame(1).encode(&mut wire);
    Response::Integer(1).to_frame(2).encode(&mut wire);
    let mut buffer: Vec<u8> = Vec::new();
    assert_eq!(client.read_response(&mut buffer), Ok(None));
    buffer.extend_from_slice(&wire[..10]);
    assert_eq!(client.read_response(&mut buffer), Ok(None));
    buffer.extend_from_slice(&wire[10..25]);
    assert_eq!(client.read_response(&mut buffer), Ok(None));
    buffer.extend_from_slice(&wire[25..]);
    assert_eq!(client.read_response(&mut buffer), Ok(Some(Response::Value(b"world".to_vec()))));
    assert_eq!(client.read_response(&mut buffer), Ok(Some(Response::Integer(1))));
    assert_eq!(client.read_response(&mut buffer), Ok(None));
    let mut bad = vec![0u8; 22];
    assert_eq!(client.read_response(&mut bad), Err(Error::Protocol("Invalid magic bytes".to_string())));
    let mut request: Vec<u8> = Vec::new();
    Frame::ping(1).encode(&mut request);
    assert_eq!(
        Client::new().read_response(&mut request),
        Err(Error::Protocol("Unexpected opcode for response: Ping".to_string()))
    );
}

#[test]
fn client_interprets_responses() {
    assert_eq!(expect_pong(Response::Pong), Ok(()));
    assert_eq!(expect_pong(Response::Okay), Err(Error::Protocol("Expected PONG".to_string())));
    assert_eq!(expect_pong(Response::Error("down".to_string())), Err(Error::Server("down".to_string())));
    assert_eq!(expect_ok(Response::Okay), Ok(()));
    assert_eq!(expect_ok(Response::Nil), Err(Error::Protocol("Expected OK".to_string())));
    assert_eq!(expect_value(Response::Value(b"v".to_vec())), Ok(Some("v".to_string())));
    assert_eq!(expect_value(Response::Nil), Ok(None));
    assert_eq!(expect_value(Response::Pong), Err(Error::Protocol("Expected Value or Nil".to_string())));
    assert_eq!(expect_flag(Response::Integer(1)), Ok(true));
    assert_eq!(expect_flag(Response::Integer(0)), Ok(false));
    assert_eq!(expect_flag(Response::Integer(-1)), Ok(false));
    assert_eq!(expect_flag(Response::Okay), Err(Error::Protocol("Expected Integer".to_string())));
    assert_eq!(
        expect_keys(Response::Array(vec![b"q1".to_vec(), vec![0xFF]])),
        Ok(vec!["q1".to_string(), "\u{FFFD}".to_string()])
    );
    assert_eq!(expect_keys(Response::Error("e".to_string())), Err(Error::Server("e".to_string())));
    assert_eq!(expect_keys(Response::Nil), Err(Error::Protocol("Expected Array".to_string())));
}

#[test]
fn command_lines() {
    assert_eq!(parse_command("PING"), Ok(Command::Ping));
    assert_eq!(parse_command("  ping  "), Ok(Command::Ping));
    assert_eq!(parse_command("get mykey"), Ok(Command::Get { key: b"mykey".to_vec() }));
    assert_eq!(parse_command("GET a b c"), Ok(Command::Get { key: b"a".to_vec() }));
    assert_eq!(
        parse_command("SET mykey myvalue"),
        Ok(Command::SetKey { key: b"mykey".to_vec(), value: b"myvalue".to_vec(), ttl: None })
    );
    assert_eq!(
        parse_command("set\ttempkey\u{a0}value \u{2003}60\n"),
        Ok(Command::SetKey { key: b"tempkey".to_vec(), value: b"value".to_vec(), ttl: Some(60) })
    );
    assert_eq!(
        parse_command("SET k v +7 junk"),
        Ok(Command::SetKey { key: b"k".to_vec(), value: b"v".to_vec(), ttl: Some(7) })
    );
    assert_eq!(parse_command("Del caf\u{e9}"), Ok(Command::Del { key: "caf\u{e9}".as_bytes().to_vec() }));
    assert_eq!(parse_command("exists k"), Ok(Command::Exists { key: b"k".to_vec() }));
    assert_eq!(parse_command(""), Err(CliError::Empty));
    assert_eq!(parse_command(" \t "), Err(CliError::Empty));
    assert_eq!(parse_command("GET"), Err(CliError::MissingKey(CliVerb::Get)));
    assert_eq!(parse_command("del"), Err(CliError::MissingKey(CliVerb::Del)));
    assert_eq!(parse_command("EXISTS"), Err(CliError::MissingKey(CliVerb::Exists)));
    assert_eq!(parse_command("SET k"), Err(CliError::MissingValue));
    assert_eq!(parse_command("SET k v soon"), Err(CliError::InvalidTtl(NumberError::InvalidDigit)));
    assert_eq!(parse_command("SET k v -1"), Err(CliError::InvalidTtl(NumberError::InvalidDigit)));
    assert_eq!(
        parse_command("SET k v 18446744073709551616"),
        Err(CliError::InvalidTtl(NumberError::Overflow))
    );
    // the unknown word is reported in upper case
    assert_eq!(parse_command("flush all"), Err(CliError::Unknown("FLUSH".to_string())));
    assert_eq!(parse_command("GETS k"), Err(CliError::Unknown("GETS".to_string())));
    // upper case is that of Unicode: a dotless i is an I
    assert_eq!(parse_command("p\u{131}ng"), Ok(Command::Ping));
    assert_eq!(parse_command("stra\u{df}e"), Err(CliError::Unknown("STRASSE".to_string())));
    assert_eq!(CliError::Empty.message(), "Empty command");
    assert_eq!(CliError::MissingKey(CliVerb::Del).message(), "DEL requires a key: DEL <key>");
    assert_eq!(CliError::MissingKey(CliVerb::Get).message(), "GET requires a key: GET <key>");
    assert_eq!(CliError::MissingKey(CliVerb::Exists).message(), "EXISTS requires a key: EXISTS <key>");
    assert_eq!(
        CliError::Unknown("FLUSH".to_string()).message(),
        "Unknown command: FLUSH. Type 'help' for available commands."
    );
    assert_eq!(
        CliError::InvalidTtl(NumberError::InvalidDigit).message(),
        "invalid digit found in string"
    );
    assert_eq!(
        CliError::InvalidTtl(NumberError::Overflow).message(),
        "number too large to fit in target type"
    );
    assert_eq!(
        CliError::InvalidTtl(NumberError::Empty).message(),
        "cannot parse integer from empty string"
    );
    assert_eq!(
        CliError::MissingValue.message(),
        "SET requires key and value: SET <key> <value> [ttl_seconds]"
    );
}

#[test]
fn words_and_numbers() {
    assert_eq!(split_words(&b" a  bc\td ".to_vec()), vec![b"a".to_vec(), b"bc".to_vec(), b"d".to_vec()]);
    assert_eq!(split_words(&b"".to_vec()), Vec::<Vec<u8>>::new());
    assert_eq!(split_words(&"a\u{3000}b\u{2028}c\u{205f}d\u{1680}e\u{85}f".as_bytes().to_vec()).len(), 6);
    // bytes that only begin like a space are part of a word
    assert_eq!(split_words(&vec![0xE2, 0x80, 0x94]).len(), 1);
    assert_eq!(split_words(&vec![b'a', 0xC2]).len(), 1);
    for line in ["x y", "  lead", "trail  ", "a\u{a0}b", "\u{2003}\u{2003}", "tab\tsep\r\nline"] {
        let ours: Vec<Vec<u8>> = split_words(&line.as_bytes().to_vec());
        let std: Vec<Vec<u8>> = line.split_whitespace().map(|w| w.as_bytes().to_vec()).collect();
        assert_eq!(ours, std, "{:?}", line);
    }
    assert_eq!(parse_u64(&b"0".to_vec()), Ok(0));
    assert_eq!(parse_u64(&b"007".to_vec()), Ok(7));
    assert_eq!(parse_u64(&b"+42".to_vec()), Ok(42));
    assert_eq!(parse_u64(&b"18446744073709551615".to_vec()), Ok(u64::MAX));
    assert_eq!(parse_u64(&b"18446744073709551616".to_vec()), Err(NumberError::Overflow));
    assert_eq!(parse_u64(&b"".to_vec()), Err(NumberError::Empty));
    assert_eq!(parse_u64(&b"+".to_vec()), Err(NumberError::InvalidDigit));
    assert_eq!(parse_u64(&b"-".to_vec()), Err(NumberError::InvalidDigit));
    assert_eq!(parse_u64(&b"++1".to_vec()), Err(NumberError::InvalidDigit));
    assert_eq!(parse_u64(&b"1_000".to_vec()), Err(NumberError::InvalidDigit));
    assert_eq!(parse_u64(&b"12a".to_vec()), Err(NumberError::InvalidDigit));
    // the first fault from the left decides
    assert_eq!(parse_u64(&b"99999999999999999999x".to_vec()), Err(NumberError::Overflow));
    assert_eq!(parse_u64(&b"9x9999999999999999999".to_vec()), Err(NumberError::InvalidDigit));
    for word in [
        "0", "+5", "99999999999999999999", "", "+", "-", "-1", "1e3", " 1", "18446744073709551615",
        "18446744073709551616", "184467440737095516150", "1844674407370955161x", "00000000000000000000001",
    ] {
        let ours = parse_u64(&word.as_bytes().to_vec());
        let std = word.parse::<u64>();
        assert_eq!(ours.ok(), std.clone().ok(), "{:?}", word);
        if let (Err(e), Err(theirs)) = (ours, std) {
            assert_eq!(e.message(), theirs.to_string(), "{:?}", word);
        }
    }
    let parts = vec![b"anything".to_vec(), b"k".to_vec(), b"v".to_vec(), b"9".to_vec()];
    assert_eq!(command_from_words("PING", &parts), Ok(Command::Ping));
    assert_eq!(command_from_words("ping", &parts), Err(CliError::Unknown("ping".to_string())));
    assert_eq!(
        command_from_words("SET", &parts),
        Ok(Command::SetKey { key: b"k".to_vec(), value: b"v".to_vec(), ttl: Some(9) })
    );
    assert_eq!(command_from_words("GET", &vec![]), Err(CliError::MissingKey(CliVerb::Get)));
    let mut counter = 5;
    assert_eq!(next_request_id(&mut counter), 5);
    assert_eq!(next_request_id(&mut counter), 6);
    assert_eq!(counter, 7);
    let mut last = u64::MAX;
    assert_eq!(next_request_id(&mut last), u64::MAX);
    assert_eq!(last, 0);
}

#[test]
fn decimal_numbers() {
    assert_eq!(decimal(0), "0");
    assert_eq!(decimal(9), "9");
    assert_eq!(decimal(10), "10");
    assert_eq!(decimal(1234567890), "1234567890");
    assert_eq!(decimal(u64::MAX), "18446744073709551615");
    assert_eq!(signed_decimal(0), "0");
    assert_eq!(signed_decimal(-1), "-1");
    assert_eq!(signed_decimal(i64::MAX), "9223372036854775807");
    assert_eq!(signed_decimal(i64::MIN), "-9223372036854775808");
    assert!(str_eq("a", "a"));
    assert!(!str_eq("a", "A"));
    assert!(contains_text(&vec!["x".to_string(), "y".to_string()], "y"));
    assert!(!contains_text(&vec!["x".to_string()], "y"));
}

#[test]
fn integers_on_the_wire() {
    let mut buf: Vec<u8> = vec![0xAA];
    put_u16(&mut buf, 0x0102);
    put_u32(&mut buf, 0x03040506);
    put_u64(&mut buf, 0x0708090A0B0C0D0E);
    put_i64(&mut buf, -2);
    put_u32_le(&mut buf, 0x03040506);
    put_u64_le(&mut buf, 0x0708090A0B0C0D0E);
    put_slice(&mut buf, &vec![1, 2]);
    assert_eq!(
        buf,
        vec![
            0xAA, 1, 2, 3, 4, 5, 6, 7, 8, 9, 10, 11, 12, 13, 14, 0xFF, 0xFF, 0xFF, 0xFF, 0xFF,
            0xFF, 0xFF, 0xFE, 6, 5, 4, 3, 14, 13, 12, 11, 10, 9, 8, 7, 1, 2
        ]
    );
    assert_eq!(get_u16(&buf, 1), 0x0102);
    assert_eq!(get_u32(&buf, 3), 0x03040506);
    assert_eq!(get_u64(&buf, 7), 0x0708090A0B0C0D0E);
    assert_eq!(get_i64(&buf, 15), -2);
    assert_eq!(get_u32_le(&buf, 23), 0x03040506);
    assert_eq!(get_u64_le(&buf, 27), 0x0708090A0B0C0D0E);
    assert_eq!(copy_range(&buf, 35, 2), vec![1, 2]);
    assert!(bytes_eq(&vec![1, 2], &vec![1, 2]));
    assert!(!bytes_eq(&vec![1, 2], &vec![1]));
    let mut extremes: Vec<u8> = Vec::new();
    for v in [0i64, 1, -1, i64::MIN, i64::MAX] {
        put_i64(&mut extremes, v);
    }
    for (i, v) in [0i64, 1, -1, i64::MIN, i64::MAX].iter().enumerate() {
        assert_eq!(get_i64(&extremes, i * 8), *v);
        assert_eq!(extremes[i * 8..i * 8 + 8], v.to_be_bytes());
    }
    let mut le: Vec<u8> = Vec::new();
    put_u64_le(&mut le, u64::MAX - 1);
    assert_eq!(le, (u64::MAX - 1).to_le_bytes());
}

#[test]
fn text_map_keeps_insertion_order() {
    let mut map: TextMap<u32> = TextMap::new();
    assert_eq!(map.insert("b".to_string(), 1), None);
    assert_eq!(map.insert("a".to_string(), 2), None);
    assert_eq!(map.insert("b".to_string(), 3), Some(1));
    assert_eq!(map.len(), 2);
    assert_eq!(map.key_at(0), "b");
    assert_eq!(*map.value_at(0), 3);
    assert_eq!(map.get("a"), Some(&2));
    assert_eq!(map.get("c"), None);
    assert_eq!(map.find("a"), Some(1));
    assert!(map.contains_key("b"));
    map.set_value_at(1, 9);
    assert_eq!(map.remove("b"), Some(3));
    assert_eq!(map.remove("b"), None);
    assert_eq!(map.key_at(0), "a");
    assert_eq!(map.get("a"), Some(&9));
    map.clear();
    assert_eq!(map.len(), 0);
}

#[test]
fn client_vector_requests() {
    let mut client = Client::new();
    let one = 1.0f32.to_bits();
    let add = client.request(&Client::vadd_command("q1", vec![one, 0, 0]));
    assert_eq!(add.header.opcode, OpCode::VAdd);
    assert_eq!(
        add.payload,
        vec![0, 0, 0, 2, b'q', b'1', 0, 0, 0, 3, 0x3F, 0x80, 0, 0, 0, 0, 0, 0, 0, 0, 0, 0]
    );
    let search = client.request(&Client::vsearch_command(vec![one], 5));
    assert_eq!(search.header.opcode, OpCode::VSearch);
    assert_eq!(search.header.request_id, 2);
    assert_eq!(search.payload, vec![0, 0, 0, 1, 0x3F, 0x80, 0, 0, 0, 0, 0, 5]);
    assert_eq!(Command::from_frame(&search), Ok(Command::VSearch { vector: vec![one], k: 5 }));
}
