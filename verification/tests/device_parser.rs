use ncd::ncdd::device_parser::{
    infer_device_kind, instruction_fields, is_sof_marker, jpeg_dimensions, keyboard_fields,
    log_json_device, DeviceKind, DeviceParser, Direction, Finding, InstructionMembers,
    MAX_ADAPTER_FRAME_SIZE,
};
use ncd::ncdd::json::JsonField;

fn framed(payload: &[u8]) -> Vec<u8> {
    let mut out = (payload.len() as u32).to_be_bytes().to_vec();
    out.extend_from_slice(payload);
    out
}

/// A JPEG start with an application segment and a frame header.
fn jpeg(width: u16, height: u16) -> Vec<u8> {
    let mut out = vec![0xFF, 0xD8, 0xFF, 0xE0, 0x00, 0x04, 0xAA, 0xBB];
    out.extend_from_slice(&[0xFF, 0xFF, 0xC0, 0x00, 0x0B, 0x08]);
    out.extend_from_slice(&height.to_be_bytes());
    out.extend_from_slice(&width.to_be_bytes());
    out.extend_from_slice(&[1, 0, 0, 0, 0, 0]);
    out
}

#[test]
fn kinds_by_name_and_port() {
    assert_eq!(infer_device_kind("My-Camera", 1), DeviceKind::Camera);
    assert_eq!(infer_device_kind("KEYBOARD0", 1), DeviceKind::Keyboard);
    assert_eq!(infer_device_kind("x", 9000), DeviceKind::Camera);
    assert_eq!(infer_device_kind("x", 10000), DeviceKind::Keyboard);
    assert_eq!(infer_device_kind("x", 11000), DeviceKind::Instruction);
    assert_eq!(infer_device_kind("profile", 1), DeviceKind::File);
    assert_eq!(infer_device_kind("x", 8000), DeviceKind::File);
    assert_eq!(infer_device_kind("keyboard", 9000), DeviceKind::Camera);
    assert_eq!(infer_device_kind("ncd01", 1234), DeviceKind::Unknown);
}

#[test]
fn jpeg_sizes() {
    assert_eq!(jpeg_dimensions(&jpeg(640, 480)), Some((640, 480)));
    assert_eq!(jpeg_dimensions(b"\xFF\xD8\xFF"), None);
    assert_eq!(jpeg_dimensions(b"PNG!"), None);
    let mut cut = jpeg(640, 480);
    cut.truncate(16);
    assert_eq!(jpeg_dimensions(&cut), None);
    // The scan starts before any frame header.
    assert_eq!(jpeg_dimensions(&[0xFF, 0xD8, 0xFF, 0xDA, 0, 4, 0, 0, 0]), None);
    // A marker without a segment is passed over.
    let mut with_restart = vec![0xFF, 0xD8, 0xFF, 0xD0];
    with_restart.extend_from_slice(&jpeg(2, 3)[2..]);
    assert_eq!(jpeg_dimensions(&with_restart), Some((2, 3)));
}

#[test]
fn frame_header_markers() {
    let expected = [
        0xC0, 0xC1, 0xC2, 0xC3, 0xC5, 0xC6, 0xC7, 0xC9, 0xCA, 0xCB, 0xCD, 0xCE, 0xCF,
    ];
    for m in 0..=255u8 {
        assert_eq!(is_sof_marker(m), expected.contains(&m));
    }
}

#[test]
fn camera_frames_are_counted() {
    let mut p = DeviceParser::new(3, "camera0", 9000);
    assert_eq!(p.label(), "kind=camera device=camera0 minor=3 port=9000");
    let mut bytes = framed(&jpeg(320, 200));
    bytes.extend(framed(b"nothing"));
    let found = p.inspect_remote_to_linux(&bytes);
    let lines: Vec<String> = found
        .iter()
        .map(|f| f.line(Direction::RemoteToLinux, p.label()))
        .collect();
    assert_eq!(
        lines,
        vec![
            "[ncdd parse][camera][remote->linux][kind=camera device=camera0 minor=3 port=9000] frame=1 jpeg=24 bytes size=320x200",
            "[ncdd parse][camera][remote->linux][kind=camera device=camera0 minor=3 port=9000] frame=2 jpeg=7 bytes size=unknown-size",
        ]
    );
}

#[test]
fn pieces_make_no_difference() {
    let mut bytes = framed(b"one");
    bytes.extend(framed(b""));
    bytes.extend(framed(b"three"));
    let whole: Vec<String> = {
        let mut p = DeviceParser::new(0, "file", 1);
        p.inspect_linux_to_remote(&bytes).iter().map(|f| format!("{f:?}")).collect()
    };
    let mut p = DeviceParser::new(0, "file", 1);
    let mut pieces = vec![];
    for b in &bytes {
        pieces.extend(p.inspect_linux_to_remote(&[*b]).iter().map(|f| format!("{f:?}")));
    }
    assert_eq!(whole, pieces);
    assert_eq!(whole.len(), 3);
}

#[test]
fn directions_are_apart() {
    let mut p = DeviceParser::new(0, "file", 1);
    assert!(p.inspect_remote_to_linux(&[0, 0]).is_empty());
    assert_eq!(p.inspect_linux_to_remote(&framed(b"x")).len(), 1);
    assert_eq!(p.inspect_remote_to_linux(&[0, 1, 9]).len(), 1);
    assert!(p.can_count(1000));
}

#[test]
fn impossible_lengths_clear_the_buffer() {
    let mut p = DeviceParser::new(0, "file", 1);
    let mut bytes = framed(b"ok");
    bytes.extend_from_slice(&((MAX_ADAPTER_FRAME_SIZE as u32) + 1).to_be_bytes());
    bytes.extend_from_slice(b"rest");
    let found = p.inspect_remote_to_linux(&bytes);
    assert_eq!(found.len(), 2);
    assert_eq!(
        found[1].line(Direction::RemoteToLinux, "L"),
        "[ncdd parse][remote->linux][L] invalid adapter frame length 16777217; parser buffer cleared"
    );
    assert_eq!(
        p.inspect_remote_to_linux(&framed(b"again"))[0].line(Direction::RemoteToLinux, "L"),
        "[ncdd parse][file][remote->linux][L] frame=2 payload=5 bytes"
    );
}

#[test]
fn unknown_devices_are_not_looked_at() {
    let mut p = DeviceParser::new(0, "ncd01", 1);
    assert!(p.inspect_remote_to_linux(&framed(b"x")).is_empty());
    assert!(p.inspect_linux_to_remote(&framed(b"x")).is_empty());
}

#[test]
fn keyboard_messages() {
    let json = r#"{"event":"key","action":"press","key":"a\"b","text":"hé","key_type":7}"#.as_bytes();
    let f = log_json_device(DeviceKind::Keyboard, 4, json);
    assert_eq!(
        f.line(Direction::RemoteToLinux, "L"),
        format!(
            "[ncdd parse][keyboard][remote->linux][L] frame=4 payload={} bytes event=Some(\"key\") action=Some(\"press\") key_type=None key=Some(\"a\\\"b\") text_len=Some(2)",
            json.len()
        )
    );
}

#[test]
fn instruction_messages() {
    let json = r#"{"id":"7","shell":true,"argv":["ls","-l"],"returncode":-1,"stdout":"hé"}"#.as_bytes();
    let f = log_json_device(DeviceKind::Instruction, 1, json);
    assert_eq!(
        f.line(Direction::LinuxToRemote, "L"),
        format!(
            "[ncdd parse][instruction][linux->remote][L] frame=1 payload={} bytes id=Some(\"7\") shell=Some(true) command=None argv_len=Some(2) ok=None returncode=Some(-1) stdout=3 stderr=0",
            json.len()
        )
    );
    let f = log_json_device(DeviceKind::Instruction, 1, b"[1, 2]");
    assert!(matches!(f, Finding::Instruction { fields, .. } if fields.id.is_none()));
}

#[test]
fn broken_json() {
    let f = log_json_device(DeviceKind::Keyboard, 2, b"{");
    assert_eq!(
        f.line(Direction::RemoteToLinux, "L"),
        "[ncdd parse][keyboard][remote->linux][L] frame=2 payload=1 bytes json-error=EOF while parsing an object at line 1 column 1"
    );
}

#[test]
fn members_of_the_wrong_type_count_as_missing() {
    let text = |s: &str| JsonField::Text(s.to_string());
    let k = keyboard_fields(
        text("key"),
        JsonField::Flag(true),
        JsonField::Missing,
        JsonField::Other,
        text("añb"),
    );
    assert_eq!(k.event.as_deref(), Some("key"));
    assert_eq!((k.action, k.key_type, k.key), (None, None, None));
    assert_eq!(k.text_len, Some(3));
    let i = instruction_fields(InstructionMembers {
        id: JsonField::Integer(1),
        shell: JsonField::Flag(false),
        command: text("ls"),
        argv: JsonField::List(4),
        ok: text("true"),
        returncode: JsonField::Integer(-7),
        stdout: text("añb"),
        stderr: JsonField::Other,
    });
    assert_eq!(i.id, None);
    assert_eq!((i.shell, i.ok), (Some(false), None));
    assert_eq!(i.command.as_deref(), Some("ls"));
    assert_eq!((i.argv_len, i.returncode), (Some(4), Some(-7)));
    assert_eq!((i.stdout_len, i.stderr_len), (Some(4), None));
}
