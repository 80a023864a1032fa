use ncd::host::detect::{
    eviocgbit, eviocgname, host_device, line_names_keyboard, read_setupdi_name, CameraScan,
    EvdevProbe, HostScan, KeyboardScan,
};
use ncd::host::registry::{DeviceInfo, DeviceKind, DevicesRegistry};

/// Capability bits of a keyboard: key events, and the keys 28 and 30.
fn keyboard_probe(name: &str) -> EvdevProbe {
    let mut key_bits = vec![0u8; 96];
    key_bits[3] = 0x50;
    let mut ev_bits = vec![0u8; 32];
    ev_bits[0] = 0x02;
    let mut bytes = name.as_bytes().to_vec();
    bytes.resize(256, 0);
    EvdevProbe { ev_bits: Some(ev_bits), key_bits: Some(key_bits), name: Some(bytes) }
}

fn scan() -> HostScan {
    let mut button = keyboard_probe("Power Button");
    button.key_bits = Some(vec![0u8; 96]);
    HostScan {
        cameras: CameraScan::Listed(vec![true, true]),
        keyboards: KeyboardScan::Evdev(vec![keyboard_probe("AT Keyboard"), button]),
        serial_ports: vec!["/dev/ttyUSB0".to_string()],
        ssh_config: Some("Host build\n  HostName 10.0.0.1\n\thost *\nHOST  a b \r\n".to_string()),
    }
}

fn paths(devices: &[DeviceInfo]) -> Vec<&str> {
    devices.iter().map(|d| d.path.as_str()).collect()
}

#[test]
fn test_print_detected_devices() {
    let registry = DevicesRegistry::new();
    let scan = scan();

    let cameras = registry.detect_cameras(&scan.cameras);
    let keyboards = registry.detect_keyboards(&scan.keyboards);
    let serials = registry.detect_serials(&scan.serial_ports);
    let ssh_hosts = registry.detect_ssh(&scan.ssh_config);

    println!("Detected cameras:");
    for camera in &cameras {
        println!("  {:?}", camera);
    }

    println!("Detected keyboards:");
    for kb in &keyboards {
        println!("  {:?}", kb);
    }

    println!("Detected serials:");
    for serial in &serials {
        println!("  {:?}", serial);
    }

    println!("Detected ssh hosts:");
    for host in &ssh_hosts {
        println!("  {:?}", host);
    }

    assert!(cameras.iter().all(|d| !d.path.is_empty()));
    assert!(keyboards.iter().all(|d| !d.path.is_empty()));
    assert!(serials.iter().all(|d| !d.path.is_empty()));
    assert!(ssh_hosts.iter().all(|d| !d.path.is_empty()));
}

#[test]
fn test_initialize_and_lookup_helpers() {
    let mut registry = DevicesRegistry::new();
    let detected = registry.detect_all(&scan());
    // Register all detected devices with sequential ports.
    if !detected.is_empty() {
        registry.register(&detected, 10000);
    }

    let all_devices = registry.get_all_devices();
    assert_eq!(all_devices.len(), registry.port_to_device.len());

    if let Some((port, device)) = all_devices.first() {
        let by_kind = registry.get_devices_by_kind(device.kind);
        assert!(by_kind.iter().any(|d| d.path == device.path));

        let by_path = registry.get_devices_by_path(vec![device.path.clone()]);
        assert!(by_path.iter().any(|d| d.path == device.path));

        let by_port = registry.get_devices_by_port(vec![*port]);
        assert!(by_port.iter().any(|d| d.path == device.path));

        assert_eq!(
            registry.get_single_device_by_port(*port).unwrap().path,
            device.path
        );
    }
}

#[test]
fn devices_are_detected_in_order() {
    let devices = DevicesRegistry::new().detect_all(&scan());
    assert_eq!(
        paths(&devices),
        vec![
            "camera://0",
            "camera://1",
            "input://AT Keyboard",
            "/dev/ttyUSB0",
            "ssh://build",
            "ssh://a b",
        ]
    );
}

#[test]
fn registering_replaces_and_counts_up() {
    let device = |p: &str| DeviceInfo { kind: DeviceKind::Serial, path: p.to_string() };
    let mut registry = DevicesRegistry::new();
    registry.register_with_ports(&[(7, device("old")), (9, device("a")), (9, device("b"))]);
    assert_eq!(registry.get_single_device_by_port(9).unwrap().path, "b");
    assert_eq!(registry.get_single_device_by_port(8).map(|d| d.path), None);
    registry.register(&[device("x"), device("y")], 65534);
    assert!(registry.get_single_device_by_port(7).is_none());
    assert_eq!(registry.get_single_device_by_port(65534).unwrap().path, "x");
    assert_eq!(registry.get_single_device_by_port(65535).unwrap().path, "y");
    assert_eq!(paths(&registry.get_devices_by_port(vec![65535, 1, 65534])), vec!["y", "x"]);
    let mut ports = registry.ports();
    ports.sort();
    assert_eq!(ports, vec![65534, 65535]);
    assert_eq!(registry.get_devices_by_kind(DeviceKind::Camera).len(), 0);
    assert_eq!(registry.get_devices_by_kind(DeviceKind::Serial).len(), 2);
}

#[test]
fn cameras_that_are_tried_end_at_the_first_failure() {
    let r = DevicesRegistry::new();
    let found = r.detect_cameras(&CameraScan::Probed(vec![true, true, false, true]));
    assert_eq!(paths(&found), vec!["camera://0", "camera://1"]);
    assert_eq!(r.detect_cameras(&CameraScan::Probed(vec![true; 20])).len(), 8);
    let listed = r.detect_cameras(&CameraScan::Listed(vec![true, false, true]));
    assert_eq!(paths(&listed), vec!["camera://0", "camera://2"]);
}

#[test]
fn keyboards_need_their_keys() {
    let r = DevicesRegistry::new();
    let found = |p: EvdevProbe| r.detect_keyboards(&KeyboardScan::Evdev(vec![p])).len();
    assert_eq!(found(keyboard_probe("k")), 1);
    let mut p = keyboard_probe("k");
    p.ev_bits = Some(vec![0xFD; 32]);
    assert_eq!(found(p), 0);
    let mut p = keyboard_probe("k");
    p.key_bits.as_mut().unwrap()[3] = 0x10;
    assert_eq!(found(p), 0);
    let mut p = keyboard_probe("k");
    p.key_bits = None;
    assert_eq!(found(p), 0);
}

#[test]
fn keyboards_without_a_name() {
    let r = DevicesRegistry::new();
    let mut unnamed = keyboard_probe("k");
    unnamed.name = None;
    let mut endless = keyboard_probe("k");
    endless.name = Some(vec![b'x'; 256]);
    let mut broken = keyboard_probe("k");
    broken.name = Some(vec![b'a', 0xFF, b'b', 0, b'c']);
    let found = r.detect_keyboards(&KeyboardScan::Evdev(vec![unnamed, endless, broken]));
    assert_eq!(paths(&found), vec!["input://keyboard", "input://keyboard", "input://a\u{FFFD}b"]);
    let named = vec![Some("HID".to_string()), None];
    let found = r.detect_keyboards(&KeyboardScan::Named(named));
    assert_eq!(paths(&found), vec!["keyboard://HID", "keyboard://1"]);
}

#[test]
fn keyboards_in_a_report() {
    let report = "Keyboards:\n\n    Apple Internal Keyboard:\n      Vendor: x\nKEYBOARD:\n";
    let r = DevicesRegistry::new();
    let found = r.detect_keyboards(&KeyboardScan::Report(report.as_bytes().to_vec()));
    assert_eq!(paths(&found), vec!["macos-keyboard://Apple Internal Keyboard:"]);
    let found = r.keyboards_by_report(report);
    assert_eq!(paths(&found), vec!["macos-keyboard://Apple Internal Keyboard:"]);
    let broken = vec![b'A', 0xFF, b' ', b'k', b'e', b'y', b'b', b'o', b'a', b'r', b'd'];
    let found = r.detect_keyboards(&KeyboardScan::Report(broken));
    assert_eq!(paths(&found), vec!["macos-keyboard://A\u{FFFD} keyboard"]);
    assert!(line_names_keyboard("usb keyboard"));
    assert!(!line_names_keyboard("keyboards"));
    assert!(!line_names_keyboard("mouse"));
}

#[test]
fn ssh_hosts_that_count() {
    assert_eq!(host_device(Some(" web ")).unwrap().path, "ssh://web");
    assert!(host_device(Some("*")).is_none());
    assert!(host_device(Some("  ")).is_none());
    assert!(host_device(None).is_none());
    let r = DevicesRegistry::new();
    let config = "Hostname no\nHost\nhost  one\n   HoSt two three\n#Host four\n";
    let found = r.detect_ssh(&Some(config.to_string()));
    assert_eq!(paths(&found), vec!["ssh://one", "ssh://two three"]);
    assert!(r.detect_ssh(&None).is_empty());
}

#[test]
fn input_device_codes() {
    assert_eq!(eviocgname(256), 0x8100_4506);
    assert_eq!(eviocgbit(0, 32), 0x8020_4520);
    assert_eq!(eviocgbit(1, 96), 0x8060_4521);
}

#[test]
fn names_in_properties() {
    let utf16 = |s: &str| -> Vec<u8> { s.encode_utf16().flat_map(|u| u.to_le_bytes()).collect() };
    assert_eq!(
        read_setupdi_name(&[None, Some(utf16("HID Keyboard\0\0"))]),
        Some("HID Keyboard".to_string())
    );
    assert_eq!(read_setupdi_name(&[Some(vec![1]), Some(utf16("\0"))]), None);
    assert_eq!(read_setupdi_name(&[]), None);
}

#[test]
fn kind_names() {
    assert_eq!(DeviceKind::Camera.name(), "Camera");
    assert_eq!(DeviceKind::Ssh.name(), "Ssh");
}
