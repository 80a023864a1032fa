use ncd::proto::packet::Packet;
use ncd::proto::stream::{encode_packet, IoState};

fn drain(io: &mut IoState) -> Vec<Packet> {
    let mut out = vec![];
    while let Some(p) = io.next_packet() {
        out.push(p);
    }
    out
}

#[test]
fn send_recv_data_packet() {
    let payload = b"hello ncd";
    let mut host = IoState::new();
    host.receive(&encode_packet(Packet::Data(payload.to_vec()))).unwrap();
    assert_eq!(host.next_packet(), Some(Packet::Data(payload.to_vec())));
    assert_eq!(host.next_packet(), None);
}

#[test]
fn multiple_packets_in_order() {
    let mut device = IoState::new();
    for i in 0..5 {
        let bytes = encode_packet(Packet::Data(format!("msg-{}", i).into_bytes()));
        device.receive(&bytes).unwrap();
    }
    for i in 0..5 {
        let expected = Packet::Data(format!("msg-{}", i).into_bytes());
        assert_eq!(device.next_packet(), Some(expected));
    }
}

#[test]
fn keepalive_is_received() {
    let mut host = IoState::new();
    host.receive(&encode_packet(Packet::ControlKeepAlive)).unwrap();
    assert_eq!(host.next_packet(), Some(Packet::ControlKeepAlive));
}

#[test]
fn test_echo_empty() {
    let mut io = IoState::new();
    io.receive(&encode_packet(Packet::Data(vec![]))).unwrap();
    assert_eq!(drain(&mut io), vec![Packet::Data(vec![])]);
}

#[test]
fn test_echo_large_fragmented() {
    let data: Vec<u8> = (0..70000u32).map(|i| (i % 256) as u8).collect();
    let bytes = encode_packet(Packet::Data(data.clone()));
    assert_eq!(bytes.len(), 70000 + 2 * 8);
    let mut io = IoState::new();
    for piece in bytes.chunks(8192) {
        io.receive(piece).unwrap();
    }
    assert_eq!(drain(&mut io), vec![Packet::Data(data)]);
}

#[test]
fn delivery_byte_by_byte() {
    let mut bytes = encode_packet(Packet::ControlHello { keep_alive_interval_ms: 2500 });
    bytes.extend(encode_packet(Packet::Data(b"one".to_vec())));
    bytes.extend(encode_packet(Packet::ControlPong { id: 3 }));
    let mut io = IoState::new();
    let mut got = vec![];
    for b in &bytes {
        io.receive(&[*b]).unwrap();
        got.extend(drain(&mut io));
    }
    assert_eq!(
        got,
        vec![
            Packet::ControlHello { keep_alive_interval_ms: 2500 },
            Packet::Data(b"one".to_vec()),
            Packet::ControlPong { id: 3 },
        ]
    );
}

#[test]
fn several_packets_in_one_piece() {
    let mut bytes = encode_packet(Packet::Data(b"a".to_vec()));
    bytes.extend(encode_packet(Packet::Data(b"b".to_vec())));
    let half = bytes.len() - 1;
    let mut io = IoState::new();
    io.receive(&bytes[..half]).unwrap();
    assert_eq!(drain(&mut io), vec![Packet::Data(b"a".to_vec())]);
    io.receive(&bytes[half..]).unwrap();
    assert_eq!(drain(&mut io), vec![Packet::Data(b"b".to_vec())]);
}

#[test]
fn garbage_is_refused() {
    let mut io = IoState::new();
    let err = io.receive(b"GET / HTTP/1.1\r\n").unwrap_err();
    assert_eq!(err.message(), "Invalid magic number: [71, 69, 84]");
}

#[test]
fn short_garbage_waits_for_a_header() {
    let mut io = IoState::new();
    io.receive(b"GET / H").unwrap();
    assert_eq!(io.next_packet(), None);
    assert!(io.receive(b"T").is_err());
}

#[test]
fn mixed_frames_are_refused() {
    // A frame of type 1 that goes on, and then one of type 7 that ends.
    let mut io = IoState::new();
    let bytes = [
        0x4E, 0x43, 0x44, 1, 0, 0, 1, 1, 0x4E, 0x43, 0x44, 1, 0, 1, 0, 7, 5,
    ];
    let err = io.receive(&bytes).unwrap_err();
    assert_eq!(err.message(), "Mismatched types in frames");
}
