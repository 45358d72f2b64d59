use ha_core::frame::{
    decode_frame, encode_frame, encode_text_frame, header, parse_header, read_u64, write_u64,
    FrameError, HEADER_LEN,
};
use ha_core::protocol::MyProtocol;

#[test]
fn u64_is_written_big_endian() {
    assert_eq!(write_u64(0x0102030405060708), vec![1, 2, 3, 4, 5, 6, 7, 8]);
    assert_eq!(write_u64(0), vec![0; 8]);
    assert_eq!(write_u64(u64::MAX), vec![0xff; 8]);
    assert_eq!(read_u64(&[1, 2, 3, 4, 5, 6, 7, 8]), 0x0102030405060708);
    assert_eq!(read_u64(&write_u64(3306)), 3306);
}

#[test]
fn header_layout() {
    assert_eq!(header(0xf4, 300), vec![0xf4, 0, 0, 0, 0, 0, 0, 1, 44]);
    assert_eq!(HEADER_LEN, 9);
}

#[test]
fn frame_layout() {
    let f = encode_frame(MyProtocol::Error, &[7, 8, 9]);
    assert_eq!(f, vec![0x09, 0, 0, 0, 0, 0, 0, 0, 3, 7, 8, 9]);
    let empty = encode_frame(MyProtocol::Okay, &[]);
    assert_eq!(empty, vec![0; 9]);
}

#[test]
fn frame_round_trip() {
    let payloads: Vec<Vec<u8>> = vec![
        vec![],
        vec![0],
        b"hello".to_vec(),
        (0..200_000u32).map(|i| (i % 251) as u8).collect(),
    ];
    for p in payloads {
        let bytes = encode_frame(MyProtocol::SyncBinlog, &p);
        let f = decode_frame(&bytes).ok().unwrap();
        assert_eq!(f.code, 0xf8);
        assert_eq!(f.kind(), MyProtocol::SyncBinlog);
        assert_eq!(f.payload, p);
    }
}

#[test]
fn trailing_bytes_are_left_alone() {
    let mut bytes = encode_frame(MyProtocol::GetMonitor, b"ab");
    bytes.extend_from_slice(b"next");
    let f = decode_frame(&bytes).ok().unwrap();
    assert_eq!(f.payload, b"ab".to_vec());
}

#[test]
fn short_header_is_refused() {
    let bytes = encode_frame(MyProtocol::MysqlCheck, b"payload");
    for n in 0..9 {
        assert!(matches!(decode_frame(&bytes[..n]), Err(FrameError::ShortHeader)));
        assert!(matches!(parse_header(&bytes[..n]), Err(FrameError::ShortHeader)));
    }
}

#[test]
fn short_payload_is_refused() {
    let bytes = encode_frame(MyProtocol::MysqlCheck, b"payload");
    for n in 9..bytes.len() {
        assert!(matches!(decode_frame(&bytes[..n]), Err(FrameError::ShortPayload)));
    }
    assert!(decode_frame(&bytes).is_ok());
}

#[test]
fn huge_declared_length() {
    let bytes = [0x00, 0xff, 0xff, 0xff, 0xff, 0xff, 0xff, 0xff, 0xff, 1, 2];
    assert!(matches!(decode_frame(&bytes), Err(FrameError::ShortPayload)));
    let h = parse_header(&bytes);
    if usize::BITS >= 64 {
        assert_eq!(h.ok(), Some((0, usize::MAX)));
    } else {
        assert!(matches!(h, Err(FrameError::TooLarge)));
    }
}

#[test]
fn header_is_parsed() {
    let h = parse_header(&header(0xfa, 17)).ok().unwrap();
    assert_eq!(h, (0xfa, 17));
}

#[test]
fn down_node_check_message_round_trip() {
    let mut body = serde_json::Map::new();
    body.insert("host".to_string(), serde_json::Value::String("10.0.0.5".to_string()));
    body.insert("dbport".to_string(), serde_json::Value::from(3306u64));
    let text = serde_json::Value::Object(body).to_string();

    let wire = encode_text_frame(MyProtocol::DownNodeCheck, &text);
    assert_eq!(wire.len(), 9 + text.len());
    let f = decode_frame(&wire).ok().unwrap();
    assert_eq!(f.kind(), MyProtocol::DownNodeCheck);

    let v: serde_json::Value = serde_json::from_slice(&f.payload).unwrap();
    assert_eq!(v.get("host").and_then(|h| h.as_str()), Some("10.0.0.5"));
    assert_eq!(v.get("dbport").and_then(|p| p.as_u64()), Some(3306));
}
