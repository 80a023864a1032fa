use ncd::proto::protocol::{Flag, Packet, TypedPayload};

fn data(p: &TypedPayload) -> Vec<u8> {
    match p {
        TypedPayload::Data(d) => d.clone(),
        other => panic!("expected data, got {other:?}"),
    }
}

#[test]
fn protocol_packet_on_the_wire() {
    let p = Packet { flag: Flag::End, typed_payload: TypedPayload::ControlPing { id: 258 } };
    assert_eq!(p.encode(), vec![0x4E, 0x43, 0x44, 1, 0, 4, 0, 4, 0, 0, 1, 2]);
}

#[test]
fn protocol_roundtrip() {
    let p = Packet { flag: Flag::More, typed_payload: TypedPayload::Data(b"abc".to_vec()) };
    let mut bytes = p.encode();
    bytes.extend_from_slice(&[9, 9]);
    let q = Packet::decode(&bytes).unwrap();
    assert_eq!(q.flag, Flag::More);
    assert_eq!(data(&q.typed_payload), b"abc");
}

#[test]
fn protocol_tags_and_lengths() {
    let cases = [
        (TypedPayload::ControlHello, 1u8, 0usize),
        (TypedPayload::ControlClose, 2, 0),
        (TypedPayload::ControlKeepAlive, 3, 0),
        (TypedPayload::ControlPing { id: 1 }, 4, 4),
        (TypedPayload::ControlPong { id: 1 }, 5, 4),
        (TypedPayload::Data(vec![1, 2]), 6, 2),
    ];
    for (p, tag, length) in &cases {
        assert_eq!(p.tag(), *tag);
        assert_eq!(p.length(), *length);
        assert_eq!(p.encode_body().len(), *length);
    }
}

#[test]
fn protocol_refuses_bad_bodies() {
    let text = |tag: u8, src: &[u8]| TypedPayload::decode_body(tag, src).unwrap_err().message();
    assert_eq!(text(4, &[1]), "Source data is too short for ControlPing");
    assert_eq!(text(5, &[1, 2, 3, 4, 5]), "Source data is too short for ControlPong");
    assert_eq!(text(99, &[]), "Unknown tag: 99");
}

#[test]
fn protocol_body_is_judged_before_the_flag() {
    let bytes = [0x4E, 0x43, 0x44, 1, 0, 0, 9, 99];
    assert_eq!(Packet::decode(&bytes).unwrap_err().message(), "Unknown tag: 99");
    let bytes = [0x4E, 0x43, 0x44, 1, 0, 0, 9, 1];
    assert_eq!(Packet::decode(&bytes).unwrap_err().message(), "Invalid flag value: 9");
}
