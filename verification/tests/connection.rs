use ncd::proto::error::{Error, PacketDecodeError};
use ncd::proto::packet::Packet;
use ncd::proto::stream::{encode_packet, IoState};
use ncd::runtime::connection::{
    Action, ConnRole, ConnState, Connection, Event, Phase, Request, TimerKind, NANOS_PER_MS,
};
use ncd::runtime::connection_error::{
    ConnectionClosed, ConnectionCreateError, ConnectionError,
};
use ncd::runtime::handler::ConnHandler;
use ncd::runtime::net::{IpAddress, SocketAddress};
use ncd::runtime::status::Status;

const MS: u64 = NANOS_PER_MS;

fn peer(port: u16) -> SocketAddress {
    SocketAddress { ip: IpAddress::V4(0x7F00_0001), port }
}

fn connection(role: ConnRole) -> Connection {
    // timeout 5000 ms, close timeout 2000 ms, signs of life every 2500 ms
    Connection::new(peer(9000), 5000, 2000, 2500, role)
}

fn connected_pair(now: u64) -> (Connection, Connection) {
    let mut device = connection(ConnRole::Device);
    let mut host = connection(ConnRole::Host);
    assert!(host.handshake_opening().is_none());
    let hello = device.handshake_opening();
    let (ack, interval) = host.handshake_reply(hello).unwrap();
    host.establish(interval, now);
    let (reply, interval) = device.handshake_reply(ack).unwrap();
    assert!(reply.is_none());
    device.establish(interval, now);
    (device, host)
}

fn sent(actions: &[Action]) -> Vec<&Packet> {
    actions
        .iter()
        .filter_map(|a| match a {
            Action::Send(p) => Some(p),
            _ => None,
        })
        .collect()
}

#[test]
fn handshake_connects_both_sides() {
    let (device, host) = connected_pair(0);
    assert_eq!(device.status().state, ConnState::Connected);
    assert_eq!(host.status().state, ConnState::Connected);
    assert_eq!(device.phase(), Phase::Running);
    assert_eq!(device.close_timeout_ms(), 2000);
}

#[test]
fn handshake_packets() {
    let device = connection(ConnRole::Device);
    assert_eq!(
        device.handshake_opening(),
        Some(Packet::ControlHello { keep_alive_interval_ms: 2500 })
    );
    let host = connection(ConnRole::Host);
    let (reply, interval) = host
        .handshake_reply(Some(Packet::ControlHello { keep_alive_interval_ms: 700 }))
        .unwrap();
    assert_eq!(reply, Some(Packet::ControlHelloAck { keep_alive_interval_ms: 2500 }));
    assert_eq!(interval, 700);
}

#[test]
fn handshake_refuses_other_packets() {
    let device = connection(ConnRole::Device);
    let host = connection(ConnRole::Host);
    let wrong = Some(Packet::ControlHello { keep_alive_interval_ms: 1 });
    assert!(matches!(
        device.handshake_reply(wrong),
        Err(ConnectionCreateError::HandshakeError(text))
            if text == "Expected ControlHello packet, received different packet"
    ));
    assert!(matches!(
        host.handshake_reply(Some(Packet::ControlKeepAlive)),
        Err(ConnectionCreateError::HandshakeError(_))
    ));
    assert!(matches!(
        host.handshake_reply(None),
        Err(ConnectionCreateError::PacketTransferError(ConnectionError::UnexpectedEOF))
    ));
}

#[test]
fn ping_pong_roundtrip() {
    let (mut device, mut host) = connected_pair(0);
    let ping_id = 42u32;
    let actions = host.step(Event::Arrived(Packet::ControlPing { id: ping_id }), 5);
    assert_eq!(sent(&actions), vec![&Packet::ControlPong { id: ping_id }]);
    assert_eq!(actions.len(), 1);
    let actions = device.step(Event::Arrived(Packet::ControlPong { id: ping_id }), 6);
    assert!(actions.is_empty());
    assert_eq!(device.status().latest_rtt, None);
}

#[test]
fn round_trip_time_is_measured() {
    let (mut device, _host) = connected_pair(0);
    // The keep-alive timer (2500 ms) comes before the question (3750 ms).
    assert_eq!(device.next_deadline(), Some(2500 * MS));
    assert_eq!(device.due_timer(2500 * MS - 1), None);
    assert_eq!(device.due_timer(2500 * MS), Some(TimerKind::KeepAlive));
    let actions = device.tick_with_id(2500 * MS, 1);
    assert_eq!(sent(&actions), vec![&Packet::ControlKeepAlive]);
    assert_eq!(device.next_deadline(), Some(3750 * MS));
    let actions = device.tick_with_id(3750 * MS, 77);
    assert_eq!(sent(&actions), vec![&Packet::ControlPing { id: 77 }]);
    device.step(Event::Arrived(Packet::ControlPong { id: 77 }), 3750 * MS + 1234);
    assert_eq!(device.status().latest_rtt, Some(1234));
    // Answered once only.
    device.step(Event::Arrived(Packet::ControlPong { id: 77 }), 3750 * MS + 9999);
    assert_eq!(device.status().latest_rtt, Some(1234));
}

#[test]
fn random_ping_has_its_answer_measured() {
    let (mut device, _host) = connected_pair(0);
    device.tick(2500 * MS);
    let actions = device.tick(3750 * MS);
    let id = match sent(&actions)[0] {
        Packet::ControlPing { id } => *id,
        other => panic!("expected a ping, got {other:?}"),
    };
    device.step(Event::Arrived(Packet::ControlPong { id }), 3751 * MS);
    assert_eq!(device.status().latest_rtt, Some(MS));
}

#[test]
fn silent_peer_is_given_up() {
    let (mut device, _host) = connected_pair(0);
    device.tick_with_id(2500 * MS, 1);
    device.tick_with_id(3750 * MS, 2);
    // The second keep-alive is due at the same time as the timeout.
    device.tick_with_id(5000 * MS, 3);
    let actions = device.tick_with_id(5000 * MS, 4);
    assert_eq!(sent(&actions), vec![&Packet::ControlClose]);
    assert!(matches!(actions[1], Action::Shutdown));
    assert_eq!(device.next_deadline(), None);
    let actions = device.step(Event::Arrived(Packet::ControlClose), 5001 * MS);
    assert!(matches!(
        &actions[0],
        Action::Finish(Err(ConnectionError::PeerInactiveTimeout))
    ));
    assert_eq!(device.status().state, ConnState::Closed);
}

#[test]
fn any_packet_postpones_the_timeout() {
    let (mut device, _host) = connected_pair(0);
    device.step(Event::Arrived(Packet::ControlKeepAlive), 4900 * MS);
    device.tick_with_id(5000 * MS, 1); // keep-alive
    device.tick_with_id(5000 * MS, 1); // keep-alive
    assert_eq!(device.due_timer(5000 * MS), None);
    assert_eq!(device.phase(), Phase::Running);
}

/// Host initiates close, device receives ControlClose and answers it.
#[test]
fn peer_initiated_close() {
    let (mut device, mut host) = connected_pair(0);
    let actions = host.step(Event::Requested(Request::Close), 1);
    assert_eq!(sent(&actions), vec![&Packet::ControlClose]);

    assert!(device.step(Event::Arrived(Packet::ControlClose), 2).is_empty());
    let actions = device.step(Event::NoRequest, 3);
    assert_eq!(sent(&actions), vec![&Packet::ControlClose]);
    let actions = device.step(Event::StreamEnded, 4);
    assert!(matches!(&actions[0], Action::Finish(Err(ConnectionError::PeerClosed))));
    assert_eq!(device.status().state, ConnState::Closed);

    let actions = host.step(Event::Arrived(Packet::ControlClose), 5);
    assert!(matches!(&actions[0], Action::Finish(Ok(()))));
    assert_eq!(host.status().state, ConnState::Closed);
}

/// Device initiates close, host receives ControlClose and responds.
#[test]
fn device_initiated_close() {
    let (mut device, mut host) = connected_pair(0);
    device.step(Event::Requested(Request::Close), 1);
    host.step(Event::Arrived(Packet::ControlClose), 2);
    host.step(Event::NoRequest, 2);
    let actions = host.step(Event::StreamEnded, 3);
    assert!(matches!(&actions[0], Action::Finish(Err(ConnectionError::PeerClosed))));
    assert_eq!(host.status().state, ConnState::Closed);
    device.step(Event::Arrived(Packet::ControlClose), 4);
    assert_eq!(device.status().state, ConnState::Closed);
}

#[test]
fn waiting_packets_are_sent_before_goodbye() {
    let (mut device, _host) = connected_pair(0);
    device.step(Event::Arrived(Packet::ControlClose), 1);
    let a = device.step(Event::Requested(Request::Send(Packet::Data(b"x".to_vec()))), 1);
    assert_eq!(sent(&a), vec![&Packet::Data(b"x".to_vec())]);
    let a = device.step(Event::Requested(Request::GetStatus), 1);
    assert!(matches!(&a[0], Action::Report(s) if s.state == ConnState::Connected));
    let a = device.step(Event::Requested(Request::Close), 1);
    assert_eq!(sent(&a), vec![&Packet::ControlClose]);
    assert_eq!(device.phase(), Phase::AwaitEnd);
}

#[test]
fn data_is_delivered_while_closing() {
    let (mut device, _host) = connected_pair(0);
    device.step(Event::Requested(Request::Close), 1);
    let a = device.step(Event::Arrived(Packet::Data(b"late".to_vec())), 2);
    assert!(matches!(&a[0], Action::Deliver(d) if d == b"late"));
    assert!(device.step(Event::Arrived(Packet::ControlPing { id: 1 }), 2).is_empty());
    // A greeting is passed over here.
    let hello = Packet::ControlHello { keep_alive_interval_ms: 1 };
    assert!(device.step(Event::Arrived(hello), 2).is_empty());
}

#[test]
fn closing_can_fail() {
    let finish = |event: Event| {
        let (mut device, _host) = connected_pair(0);
        device.step(Event::Requested(Request::Close), 1);
        let mut a = device.step(event, 2);
        (a.remove(0), device.status().state)
    };
    assert!(matches!(
        finish(Event::Eof),
        (Action::Finish(Err(ConnectionError::UnexpectedEOF)), ConnState::Connected)
    ));
    assert!(matches!(
        finish(Event::CloseTimedOut),
        (Action::Finish(Err(ConnectionError::CloseTimeout)), ConnState::Connected)
    ));
    assert!(matches!(
        finish(Event::StreamFailed(ConnectionError::Io("reset".to_string()))),
        (Action::Finish(Ok(())), ConnState::Closed)
    ));
}

#[test]
fn recv_returns_none_on_eof() {
    let (mut device, _host) = connected_pair(0);
    let a = device.step(Event::Eof, 1);
    assert!(matches!(&a[0], Action::Finish(Err(ConnectionError::UnexpectedEOF))));
    assert!(device.step(Event::Arrived(Packet::ControlPing { id: 1 }), 2).is_empty());
}

#[test]
fn stream_failure_ends_the_connection() {
    let (mut device, _host) = connected_pair(0);
    let error = ConnectionError::ProtocolError(Error::from(PacketDecodeError::UnknownTag(9)));
    let a = device.step(Event::StreamFailed(error), 1);
    match &a[0] {
        Action::Finish(Err(e)) => {
            assert_eq!(e.message(), "Protocol error: Unknown packet tag: 0x09")
        }
        other => panic!("unexpected {other:?}"),
    }
}

/// The status reflects the real connection state.
#[test]
fn status_reflects_connection() {
    let (device, host) = connected_pair(0);
    assert_eq!(device.status().role, ConnRole::Device);
    assert_eq!(host.status().role, ConnRole::Host);
    assert_eq!(device.status().state, ConnState::Connected);
    assert_eq!(host.status().state, ConnState::Connected);
    assert_eq!(device.status().peer_addr.ip, host.status().peer_addr.ip);
}

#[test]
fn requests_while_running() {
    let (mut device, _host) = connected_pair(0);
    let a = device.step(Event::Requested(Request::Send(Packet::Data(vec![1]))), 1);
    assert_eq!(sent(&a), vec![&Packet::Data(vec![1])]);
    let a = device.step(Event::Requested(Request::GetStatus), 1);
    assert!(matches!(&a[0], Action::Report(s) if s.peer_addr == peer(9000)));
}

#[test]
fn short_status() {
    let s = Status::new(ConnState::Connected, peer(1));
    assert!(s.is_connected() && !s.is_closed());
    let s = Status::new(ConnState::Closed, peer(1));
    assert!(!s.is_connected() && s.is_closed());
    let s = Status::new(ConnState::Connecting, peer(1));
    assert!(!s.is_connected() && !s.is_closed());
    assert_eq!(s.peer_addr, Some(peer(1)));
}

#[test]
fn handler_sends_bytes_as_one_packet() {
    let mut h = ConnHandler::new();
    h.started();
    match h.write(b"abc", None).unwrap() {
        Request::Send(p) => assert_eq!(p, Packet::Data(b"abc".to_vec())),
        other => panic!("unexpected {other:?}"),
    }
    assert!(matches!(h.get_status(None), Ok(Request::GetStatus)));
    assert!(matches!(h.close(None), Ok(Request::Close)));
    assert!(h.leaves_task_behind());
}

#[test]
fn handler_reads_what_was_delivered() {
    let mut h = ConnHandler::new();
    h.started();
    assert_eq!(h.read(Some(Packet::Data(vec![1, 2])), None).unwrap(), vec![1, 2]);
    let end = h.read(None, Some(Ok(())));
    assert!(matches!(end, Err(ConnectionClosed::Normal)));
}

#[test]
fn test_close_twice_is_idempotent() {
    let mut h = ConnHandler::new();
    h.started();
    assert!(matches!(h.close(None), Ok(Request::Close)));
    assert!(h.close_finished(Ok(())).is_ok());
    assert!(!h.leaves_task_behind());
    assert!(matches!(h.close(None), Err(ConnectionClosed::Normal)));
}

#[test]
fn test_read_after_close_returns_error() {
    let mut h = ConnHandler::new();
    h.started();
    let _ = h.close_finished(Err(ConnectionError::PeerClosed));
    let closed = h.read(None, None).unwrap_err();
    assert_eq!(
        closed.message(),
        "Closed due to error: Peer closed the connection"
    );
    // The result stays, whatever is seen later.
    let closed = h.write(b"x", Some(Ok(()))).unwrap_err();
    assert!(matches!(closed, ConnectionClosed::Error(ConnectionError::PeerClosed)));
}

#[test]
fn connection_error_texts() {
    assert_eq!(ConnectionError::Io("broken".to_string()).message(), "IO error: broken");
    assert_eq!(ConnectionError::PeerInactiveTimeout.message(), "Peer inactive timeout");
    assert_eq!(ConnectionError::UnexpectedEOF.message(), "Received unexpected EOF");
    assert_eq!(ConnectionError::CloseTimeout.message(), "Close timeout");
    assert_eq!(ConnectionClosed::Normal.message(), "Closed normally");
    assert_eq!(
        ConnectionClosed::Unknown("channel closed".to_string()).message(),
        "Unknown error: channel closed"
    );
}

/// Both sides close at the same time.
#[test]
fn both_sides_close() {
    let (mut device, mut host) = connected_pair(0);
    device.step(Event::Requested(Request::Close), 1);
    host.step(Event::Requested(Request::Close), 1);
    for side in [&mut device, &mut host] {
        let a = side.step(Event::Arrived(Packet::ControlClose), 2);
        assert!(matches!(&a[0], Action::Finish(Ok(()))));
        assert_eq!(side.status().state, ConnState::Closed);
        assert_eq!(side.next_deadline(), None);
    }
}

#[test]
fn connection_msg_transfer() {
    let (mut device, mut host) = connected_pair(0);
    let messages = [&b"Hello from device"[..], b"ncd is awesome", b"", b"x is working"];
    let mut stream = vec![];
    for m in messages {
        for a in device.step(Event::Requested(Request::Send(Packet::Data(m.to_vec()))), 1) {
            match a {
                Action::Send(p) => stream.extend(encode_packet(p)),
                other => panic!("unexpected {other:?}"),
            }
        }
    }
    let mut io = IoState::new();
    let mut read = vec![];
    for piece in stream.chunks(3) {
        io.receive(piece).unwrap();
        while let Some(p) = io.next_packet() {
            for a in host.step(Event::Arrived(p), 2) {
                match a {
                    Action::Deliver(data) => read.push(data),
                    other => panic!("unexpected {other:?}"),
                }
            }
        }
    }
    assert_eq!(read, messages);
}
