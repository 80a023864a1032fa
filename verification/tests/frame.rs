use ncd::proto::error::Error;
use ncd::proto::frame::{
    Flag, Frame, DEFAULT_MAX_PAYLOAD_SIZE, HEADER_SIZE_BYTE, MAGIC_NUMBER, VERSION,
};

#[test]
fn roundtrip_empty_payload() {
    let frame = Frame {
        flag: Flag::End,
        ty: 0x01,
        payload: vec![],
    };
    let bytes = frame.encode();
    let decoded = Frame::decode(&bytes).unwrap();
    assert_eq!(decoded, frame);
}

#[test]
fn roundtrip_data_payload() {
    let frame = Frame {
        flag: Flag::End,
        ty: 0x06,
        payload: b"hello world".to_vec(),
    };
    let bytes = frame.encode();
    let decoded = Frame::decode(&bytes).unwrap();
    assert_eq!(decoded, frame);
}

#[test]
fn roundtrip_with_more_flag() {
    let frame = Frame {
        flag: Flag::More,
        ty: 0x06,
        payload: vec![0xAA; 1024],
    };
    let bytes = frame.encode();
    let decoded = Frame::decode(&bytes).unwrap();
    assert_eq!(decoded, frame);
}

#[test]
fn roundtrip_max_payload() {
    let frame = Frame {
        flag: Flag::End,
        ty: 0x06,
        payload: vec![0xBB; DEFAULT_MAX_PAYLOAD_SIZE],
    };
    let bytes = frame.encode();
    assert_eq!(bytes.len(), HEADER_SIZE_BYTE + DEFAULT_MAX_PAYLOAD_SIZE);
    let decoded = Frame::decode(&bytes).unwrap();
    assert_eq!(decoded, frame);
}

#[test]
fn peek_head_parses_correctly() {
    let frame = Frame {
        flag: Flag::End,
        ty: 0x04,
        payload: vec![0x00, 0x00, 0x00, 0x2A], // id = 42
    };
    let bytes = frame.encode();
    let Some((ty, flag, payload_len)) = Frame::peek_head(&bytes).unwrap() else {
        panic!("Failed to peek at frame header");
    };
    assert_eq!(ty, frame.ty);
    assert_eq!(flag, frame.flag);
    assert_eq!(payload_len, frame.payload.len());
}

#[test]
fn peek_head_on_zero_payload() {
    let frame = Frame {
        flag: Flag::End,
        ty: 0x01,
        payload: vec![],
    };
    let bytes = frame.encode();
    let Some((_, _, payload_len)) = Frame::peek_head(&bytes).unwrap() else {
        panic!("Failed to peek at frame header");
    };
    assert_eq!(payload_len, 0);
}

#[test]
fn peek_head_rejects_short_data() {
    let empty = Frame::peek_head(&[0x4E, 0x43]).unwrap();
    assert_eq!(empty, None, "Expected None for short data");
}

#[test]
fn decode_rejects_short_header() {
    let err = Frame::decode(&[0x4E, 0x43]).unwrap_err();
    assert!(
        matches!(&err, Error::PacketDecodeError(msg) if msg.contains("too short")),
        "expected 'too short' error, got {err:?}"
    );
}

#[test]
fn decode_rejects_bad_magic() {
    let mut bytes = vec![0xFF; 8];
    bytes[3] = VERSION;
    let err = Frame::decode(&bytes).unwrap_err();
    assert!(
        matches!(&err, Error::PacketDecodeError(msg) if msg.contains("magic")),
        "expected magic error, got {err:?}"
    );
}

#[test]
fn decode_rejects_bad_version() {
    let mut bytes = vec![];
    bytes.extend_from_slice(&MAGIC_NUMBER);
    bytes.push(0xFF); // bad version
    bytes.extend_from_slice(&0u16.to_be_bytes());
    bytes.push(0x00); // flag
    bytes.push(0x01); // type
    let err = Frame::decode(&bytes).unwrap_err();
    assert!(
        matches!(&err, Error::PacketDecodeError(msg) if msg.contains("version")),
        "expected version error, got {err:?}"
    );
}

#[test]
fn decode_rejects_truncated_payload() {
    let mut bytes = vec![];
    bytes.extend_from_slice(&MAGIC_NUMBER);
    bytes.push(VERSION);
    bytes.extend_from_slice(&10u16.to_be_bytes()); // claim 10-byte payload
    bytes.push(0x00); // flag
    bytes.push(0x01); // type
    // No payload appended
    let err = Frame::decode(&bytes).unwrap_err();
    assert!(
        matches!(&err, Error::PacketDecodeError(msg) if msg.contains("too short")),
        "expected 'too short' error, got {err:?}"
    );
}

#[test]
fn decode_rejects_invalid_flag() {
    let mut bytes = vec![];
    bytes.extend_from_slice(&MAGIC_NUMBER);
    bytes.push(VERSION);
    bytes.extend_from_slice(&0u16.to_be_bytes());
    bytes.push(0xFF); // invalid flag
    bytes.push(0x01); // type
    let err = Frame::decode(&bytes).unwrap_err();
    assert!(
        matches!(&err, Error::PacketDecodeError(msg) if msg.contains("flag")),
        "expected flag error, got {err:?}"
    );
}

#[test]
fn frame_layout_on_the_wire() {
    let frame = Frame { flag: Flag::More, ty: 0x07, payload: vec![1, 2, 3] };
    assert_eq!(
        frame.encode(),
        vec![0x4E, 0x43, 0x44, 1, 0, 3, 1, 7, 1, 2, 3]
    );
}

#[test]
fn frame_is_read_in_front_of_other_bytes() {
    let frame = Frame { flag: Flag::End, ty: 0x05, payload: vec![9; 300] };
    let mut bytes = frame.encode();
    bytes.extend_from_slice(b"anything");
    assert_eq!(Frame::decode(&bytes).unwrap(), frame);
}

#[test]
fn frame_error_texts() {
    let text = |bytes: &[u8]| Frame::decode(bytes).unwrap_err().message();
    assert_eq!(text(&[0x4E]), "Source data is too short");
    assert_eq!(
        text(&[1, 20, 255, 1, 0, 0, 0, 1]),
        "Invalid magic number: [1, 20, 255]"
    );
    assert_eq!(text(&[0x4E, 0x43, 0x44, 2, 0, 0, 0, 1]), "Invalid version: 2");
    assert_eq!(
        text(&[0x4E, 0x43, 0x44, 1, 0, 1, 0, 1]),
        "Source data is too short for payload"
    );
    assert_eq!(text(&[0x4E, 0x43, 0x44, 1, 0, 0, 2, 1]), "Invalid flag value: 2");
}

#[test]
fn peek_head_reports_bad_flag_before_payload_is_there() {
    let bytes = [0x4E, 0x43, 0x44, 1, 0, 9, 7, 1];
    assert!(Frame::peek_head(&bytes).unwrap_err().message().contains("flag"));
}

#[test]
fn flag_from_byte() {
    assert_eq!(Flag::try_from(0u8).unwrap(), Flag::End);
    assert_eq!(Flag::try_from(1u8).unwrap(), Flag::More);
    assert!(Flag::try_from(2u8).is_err());
}
