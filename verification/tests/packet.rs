use ncd::proto::error::{Error, FrameDecodeError, PacketDecodeError};
use ncd::proto::packet::{Packet, CONTROL_PING_TAG, CONTROL_PONG_TAG};

#[test]
fn roundtrip_hello() {
    let pkt = Packet::ControlHello {
        keep_alive_interval_ms: 1000,
    };
    let (ty, body) = pkt.encode();
    let decoded = Packet::decode(ty, &body).unwrap();
    assert_eq!(decoded, pkt);
}

#[test]
fn roundtrip_close() {
    let pkt = Packet::ControlClose;
    let (ty, body) = pkt.encode();
    let decoded = Packet::decode(ty, &body).unwrap();
    assert_eq!(decoded, pkt);
}

#[test]
fn roundtrip_keepalive() {
    let pkt = Packet::ControlKeepAlive;
    let (ty, body) = pkt.encode();
    let decoded = Packet::decode(ty, &body).unwrap();
    assert_eq!(decoded, pkt);
}

#[test]
fn roundtrip_ping() {
    let pkt = Packet::ControlPing { id: 42 };
    let (ty, body) = pkt.encode();
    let decoded = Packet::decode(ty, &body).unwrap();
    assert_eq!(decoded, pkt);
}

#[test]
fn roundtrip_pong() {
    let pkt = Packet::ControlPong { id: 99 };
    let (ty, body) = pkt.encode();
    let decoded = Packet::decode(ty, &body).unwrap();
    assert_eq!(decoded, pkt);
}

#[test]
fn roundtrip_data() {
    let pkt = Packet::Data(b"hello world".to_vec());
    let (ty, body) = pkt.encode();
    let decoded = Packet::decode(ty, &body).unwrap();
    assert_eq!(decoded, pkt);
}

#[test]
fn roundtrip_empty_data() {
    let pkt = Packet::Data(vec![]);
    let (ty, body) = pkt.encode();
    let decoded = Packet::decode(ty, &body).unwrap();
    assert_eq!(decoded, pkt);
}

#[test]
fn decode_rejects_short_ping() {
    let err = Packet::decode(CONTROL_PING_TAG, &[0x00, 0x00, 0x00]).unwrap_err();
    assert!(
        matches!(
            &err,
            Error::PacketDecodeError(PacketDecodeError::DataLengthMismatch {
                expected: 4,
                got: 3,
                ..
            })
        ),
        "expected DataLengthMismatch(4, 3, ...) error, got {err:?}"
    );
}

#[test]
fn decode_rejects_short_pong() {
    let err = Packet::decode(CONTROL_PONG_TAG, &[0x00]).unwrap_err();
    assert!(
        matches!(
            &err,
            Error::PacketDecodeError(PacketDecodeError::DataLengthMismatch {
                expected: 4,
                got: 1,
                ..
            })
        ),
        "expected DataLengthMismatch(4, 1, ...) error, got {err:?}"
    );
}

#[test]
fn decode_rejects_unknown_tag() {
    let err = Packet::decode(0xFF, &[]).unwrap_err();
    assert!(
        matches!(
            &err,
            Error::PacketDecodeError(PacketDecodeError::UnknownTag(0xFF))
        ),
        "expected UnknownTag(0xFF) error, got {err:?}"
    );
}

#[test]
fn roundtrip_hello_ack() {
    let pkt = Packet::ControlHelloAck { keep_alive_interval_ms: 2500 };
    let (ty, body) = pkt.encode();
    assert_eq!((ty, body.clone()), (0x02, vec![0, 0, 0x09, 0xC4]));
    assert_eq!(Packet::decode(ty, &body).unwrap(), pkt);
}

#[test]
fn packet_lengths() {
    assert_eq!(Packet::ControlClose.length(), 0);
    assert_eq!(Packet::ControlPing { id: 1 }.length(), 4);
    assert_eq!(Packet::Data(vec![0; 17]).length(), 17);
}

#[test]
fn packet_error_texts() {
    assert_eq!(
        Packet::decode(0x03, &[1]).unwrap_err().message(),
        "Packet data length mismatch: expected 0, got 1. Source data length mismatch for tag 0x03"
    );
    assert_eq!(
        Packet::decode(0xAB, &[]).unwrap_err().message(),
        "Unknown packet tag: 0xab"
    );
}

#[test]
fn frame_decode_error_texts() {
    assert_eq!(
        Error::from(FrameDecodeError::InvalidFlag(7)).message(),
        "Invalid flag value: 0x07"
    );
    assert_eq!(
        Error::from(FrameDecodeError::InvalidMagicNumber { expected: [78, 67, 68], actual: [1, 2, 3] })
            .message(),
        "Invalid magic number: expected [78, 67, 68], got [1, 2, 3]"
    );
    assert_eq!(
        Error::from(FrameDecodeError::InvalidVersion { expected: 1, actual: 9 }).message(),
        "Invalid version: expected 1, got 9"
    );
    assert_eq!(
        Error::from(FrameDecodeError::DataShorterThanHeader { expected: 8, got: 2 }).message(),
        "Data length shorter than header size: expected at least 8, got 2"
    );
    assert_eq!(
        Error::from(FrameDecodeError::DataTooShort { expected: 20, got: 12 }).message(),
        "Data length shorter than total length: expected at least 20, got 12"
    );
}
