use ncd::host::app::{
    choice_footer, choice_line, device_hint, list_line, numbered_line, offer_line, parse,
    pick_devices, port_mapping, select_by_line, tip_line, verbose_hint, Args, Command, Parsed,
    PortSearch, Selection,
};
use ncd::host::config::{DeviceEntry, HostConfig};
use ncd::host::error::DeviceError;
use ncd::host::key::KeyCode;
use ncd::host::registry::{DeviceInfo, DeviceKind};
use ncd::host::runtime::{
    actor_name, adapter_options, check_config, handle_connection, pause_seconds, unread_failed,
    unread_on_close, ActorEvent, BridgeAction, BridgeEvent, RuntimeError,
};
use ncd::host::session::{
    error_message, log_data, on_device_read, on_device_written, on_peer_data, SessionStep,
};
use ncd::runtime::connection_error::{ConnectionClosed, ConnectionError};

fn args(words: &[&str]) -> Vec<String> {
    words.iter().map(|w| w.to_string()).collect()
}

fn devices() -> Vec<DeviceInfo> {
    vec![
        DeviceInfo { kind: DeviceKind::Camera, path: "camera://0".to_string() },
        DeviceInfo { kind: DeviceKind::Serial, path: "COM3".to_string() },
        DeviceInfo { kind: DeviceKind::Ssh, path: "ssh://a".to_string() },
    ]
}

fn paths(d: &[DeviceInfo]) -> Vec<&str> {
    d.iter().map(|d| d.path.as_str()).collect()
}

#[test]
fn command_line() {
    let run = |verbose: bool| Args { command: Command::Run, verbose };
    assert!(matches!(parse(&args(&["run"])), Parsed::Args(a) if a == run(false)));
    assert!(matches!(parse(&args(&["-v", "run"])), Parsed::Args(a) if a == run(true)));
    assert!(matches!(
        parse(&args(&["run", "list", "--verbose"])),
        Parsed::Args(Args { command: Command::List, verbose: true })
    ));
    assert!(matches!(parse(&args(&["run", "-h", "zzz"])), Parsed::Help));
    assert!(matches!(parse(&args(&["run", "zzz", "-h"])), Parsed::UnknownOption(o) if o == "zzz"));
    assert!(matches!(parse(&args(&["-v"])), Parsed::NoCommand));
    assert!(matches!(parse(&[]), Parsed::NoCommand));
}

#[test]
fn free_ports_are_found() {
    let mut s = PortSearch::new(65534, 3);
    let mut tried = vec![];
    while let Some(p) = s.candidate() {
        tried.push(p);
        s.tried(p != 65535);
    }
    assert_eq!(tried, vec![65534, 65535, 0, 1]);
    assert_eq!(s.found, vec![65534, 0, 1]);
    assert_eq!(PortSearch::new(1, 0).candidate(), None);
}

#[test]
fn choice_on_the_terminal() {
    let all = devices();
    let mut s = Selection::new(3);
    for k in [KeyCode::Up, KeyCode::Down, KeyCode::Char(' '), KeyCode::Down, KeyCode::Down] {
        s.handle_key(k);
    }
    assert_eq!(s.cursor, 2);
    assert_eq!(s.count(), 1);
    s.handle_key(KeyCode::Enter);
    assert!(s.done);
    assert_eq!(paths(&s.devices(&all)), vec!["COM3"]);
}

#[test]
fn enter_chooses_the_device_under_the_cursor() {
    let all = devices();
    let mut s = Selection::new(3);
    s.handle_key(KeyCode::Down);
    assert!(!s.any());
    s.handle_key(KeyCode::Char('\n'));
    assert_eq!(paths(&s.devices(&all)), vec!["COM3"]);
    let mut s = Selection::new(3);
    s.handle_key(KeyCode::Char(' '));
    s.handle_key(KeyCode::Esc);
    assert!(s.done && s.devices(&all).is_empty());
}

#[test]
fn choice_by_line() {
    let all = devices();
    assert_eq!(paths(&select_by_line(" ALL \n", &all)), paths(&all));
    assert_eq!(paths(&select_by_line("2, 0,+1,7,x,,0\n", &all)), vec!["ssh://a", "camera://0", "COM3", "camera://0"]);
    assert!(select_by_line("  \n", &all).is_empty());
    assert_eq!(paths(&pick_devices("1", &all)), vec!["COM3"]);
    assert!(pick_devices("ALL", &all).is_empty());
}

#[test]
fn lines_about_devices() {
    let all = devices();
    assert_eq!(list_line(&all[0]), "  camera    ←  camera://0");
    assert_eq!(choice_line(&all[1], true), "  ◼  serial    ←  COM3");
    assert_eq!(choice_line(&all[1], false), "  ◻  serial    ←  COM3");
    assert_eq!(numbered_line(&all[2], 2), "  [2] ssh  ←  ssh://a");
    assert_eq!(choice_footer(0), "\n  0 devices selected\n");
    assert_eq!(choice_footer(2), "\n  2 device(s) selected  →  ports 10000-10001\n");
    assert_eq!(
        offer_line(10000, &all[0]),
        "  port 10000   camera    ←  camera://0"
    );
    assert_eq!(offer_line(10001, &all[1]), "  port 10001   serial    ←  COM3");
    assert_eq!(tip_line(10000, &all[0]), "  →  <windows-ip>:10000   (camera://0)");
    assert_eq!(tip_line(10001, &all[1]), "  →  <windows-ip>:10001   (COM3)");
    assert!(device_hint(DeviceKind::Serial).contains("115200"));
    assert_eq!(device_hint(DeviceKind::Unknown), "");
    assert!(verbose_hint(false).contains("--verbose"));
}

#[test]
fn ports_and_devices_side_by_side() {
    let m = port_mapping(&[5, 6], &devices());
    assert_eq!(m.len(), 2);
    assert_eq!((m[1].0, m[1].1.path.as_str()), (6, "COM3"));
}

#[test]
fn data_in_the_log() {
    assert_eq!(log_data("→ host", b""), None);
    assert_eq!(log_data("→ host", b"hi\tyou\r\n").unwrap(), "  → host  hi\\tyou\\r\\n");
    assert_eq!(log_data("host →", &[1, 0xAB]).unwrap(), "  host →  2 B  01 ab");
    let long = vec![0u8; 33];
    assert_eq!(
        log_data("d", &long).unwrap(),
        format!("  d  33 B  {} …", vec!["00"; 32].join(" "))
    );
    let text = vec![b'a'; 200];
    assert_eq!(log_data("d", &text).unwrap().len(), 5 + 200);
    let text = vec![b'a'; 201];
    assert!(log_data("d", &text).unwrap().starts_with("  d  201 B  61 61"));
}

#[test]
fn session_steps() {
    assert!(matches!(on_peer_data(b""), SessionStep::Nothing));
    assert!(matches!(on_peer_data(b"x"), SessionStep::WriteDevice));
    assert!(matches!(on_device_written(&Ok(3)), SessionStep::Nothing));
    let err = DeviceError::NotOpen("p".to_string());
    let reply = b"Error: Device is not open: p\n";
    assert_eq!(error_message(&err), reply);
    assert!(matches!(on_device_written(&Err(err)), SessionStep::Tell(b) if b == reply));
    assert!(matches!(
        on_device_read(b"abcdef", &Ok(2)),
        SessionStep::SendAndReadOn(b) if b == b"ab"
    ));
    assert!(matches!(on_device_read(b"abc", &Ok(0)), SessionStep::Nothing));
    let err = DeviceError::Io("x".to_string());
    assert!(matches!(on_device_read(b"", &Err(err)), SessionStep::Tell(_)));
}

fn entry(options: Vec<(String, String)>) -> DeviceEntry {
    DeviceEntry {
        driver: "cam".to_string(),
        device_identifier: "0".to_string(),
        device_name: "Cam".to_string(),
        port: 9000,
        options,
    }
}

#[test]
fn adapter_gets_the_port() {
    let port = |v: &str| ("port".to_string(), v.to_string());
    assert_eq!(actor_name(&entry(vec![])), "cam:9000");
    assert_eq!(adapter_options(&entry(vec![])), vec![port("9000")]);
    assert_eq!(adapter_options(&entry(vec![port("1")])), vec![port("1")]);
    assert!(check_config(&HostConfig { device: vec![entry(vec![])] }).is_ok());
    let err = check_config(&HostConfig { device: vec![] }).unwrap_err();
    assert_eq!(err.message(), "No devices configured");
    assert_eq!(RuntimeError::Adapter("x".to_string()).message(), "Adapter error: x");
    assert_eq!(RuntimeError::Ncd("x".to_string()).message(), "NCD connection error: x");
}

#[test]
fn bridge_carries_data_and_stops() {
    let stop = |e: BridgeEvent| match handle_connection("n", e) {
        BridgeAction::Stop(line) => line,
        other => panic!("unexpected {other:?}"),
    };
    assert!(matches!(
        handle_connection("n", BridgeEvent::PeerData(vec![1])),
        BridgeAction::ToAdapter(b) if b == vec![1]
    ));
    assert!(matches!(
        handle_connection("n", BridgeEvent::AdapterData(vec![2])),
        BridgeAction::ToPeer(b) if b == vec![2]
    ));
    let exited = |success: bool| BridgeEvent::AdapterExited {
        success,
        status: "exit status: 3".to_string(),
    };
    assert_eq!(stop(exited(true)), "[n] Adapter exited normally");
    assert_eq!(stop(exited(false)), "[n] Adapter exited with exit status: 3");
    assert_eq!(
        stop(BridgeEvent::PeerClosed(ConnectionClosed::Normal)),
        "[n] NCD peer disconnected"
    );
    assert_eq!(
        stop(BridgeEvent::PeerClosed(ConnectionClosed::Error(ConnectionError::PeerClosed))),
        "[n] NCD read error: Peer closed the connection"
    );
    assert_eq!(
        stop(BridgeEvent::PeerClosed(ConnectionClosed::Unknown("x".to_string()))),
        "[n] NCD connection closed: Unknown error: x"
    );
    assert_eq!(stop(BridgeEvent::AdapterSilent), "[n] Adapter stdout closed");
    assert_eq!(
        stop(BridgeEvent::AdapterWriteFailed("pipe".to_string())),
        "[n] Write to adapter failed: pipe"
    );
    assert_eq!(
        stop(BridgeEvent::PeerWriteFailed("gone".to_string())),
        "[n] NCD write error: gone"
    );
    assert_eq!(pause_seconds(ActorEvent::AcceptFailed), 1);
    assert_eq!(pause_seconds(ActorEvent::PeerGone), 0);
}

#[test]
fn unread_messages_go_to_the_adapter() {
    assert!(unread_on_close("cam:9000", &[]).is_empty());
    let actions = unread_on_close("cam:9000", &[vec![1, 2], vec![3]]);
    assert_eq!(actions.len(), 4);
    assert!(matches!(
        &actions[0],
        BridgeAction::Log(line) if line == "[cam:9000] 2 unread messages delivered on close"
    ));
    assert!(matches!(&actions[1], BridgeAction::ToAdapter(b) if *b == vec![1, 2]));
    assert!(matches!(&actions[2], BridgeAction::ToAdapter(b) if *b == vec![3]));
    assert!(matches!(&actions[3], BridgeAction::Pause(100)));
    let actions = unread_failed("cam:9000", "broken pipe");
    assert_eq!(actions.len(), 2);
    assert!(matches!(
        &actions[0],
        BridgeAction::Log(line)
            if line == "[cam:9000] Write remaining data to adapter failed: broken pipe"
    ));
    assert!(matches!(&actions[1], BridgeAction::Pause(100)));
}
