use ncd::host::device::DeviceState;
use ncd::host::drivers::buffer::fill;
use ncd::host::drivers::camera::{parse_camera_index, CameraDriver, CameraSource};
use ncd::host::drivers::keyboard::{
    inject_keys, inject_outcome, key_text, plan_strokes, vk_to_text, KeyStroke, KeyboardDriver,
    ReadSource,
};
use ncd::host::drivers::serial::{Backing, SerialDriver, SerialPath, SerialTarget};
use ncd::host::drivers::ssh::{reader_path, SshDriver};
use ncd::host::error::DeviceError;

#[test]
fn camera_index_from_path() {
    assert_eq!(parse_camera_index("camera://3"), 3);
    assert_eq!(parse_camera_index("/dev/video12"), 12);
    assert_eq!(parse_camera_index("camera://x"), 0);
    assert_eq!(parse_camera_index("camera://4294967295"), u32::MAX);
    assert_eq!(parse_camera_index("camera://4294967296"), 0);
    assert_eq!(parse_camera_index("webcam"), 0);
}

#[test]
fn camera_file_backed_read_returns_frame() {
    let mut cam = CameraDriver::new("file:///tmp/camera_frame.bin");
    assert!(matches!(cam.source(), CameraSource::File(f) if f == "/tmp/camera_frame.bin"));
    cam.frame_loaded(b"FRAME_DATA".to_vec());
    let mut buf = [0u8; 32];
    let n = cam.read(&mut buf).unwrap();
    assert_eq!(&buf[..n], b"FRAME_DATA");
    // second read returns 0 (no new frame)
    let n2 = cam.read(&mut buf).unwrap();
    assert_eq!(n2, 0);
}

#[test]
fn camera_close_then_reopen() {
    let mut cam = CameraDriver::new("file:///tmp/camera_reopen.bin");
    cam.frame_loaded(b"REOPEN_DATA".to_vec());
    let mut buf = [0u8; 32];
    let n = cam.read(&mut buf).unwrap();
    assert_eq!(&buf[..n], b"REOPEN_DATA");

    cam.close();
    assert_eq!(cam.state(), DeviceState::Closed);
    assert!(matches!(cam.read(&mut buf), Err(DeviceError::NotOpen(_))));

    assert!(matches!(cam.open_plan(), Some(CameraSource::File(_))));
    cam.opened(Some(b"REOPEN_DATA".to_vec()));
    assert_eq!(cam.state(), DeviceState::Open);
    let n = cam.read(&mut buf).unwrap();
    assert_eq!(&buf[..n], b"REOPEN_DATA");
}

#[test]
fn camera_open_is_idempotent() {
    let cam = CameraDriver::new("file:///tmp/camera_idem.bin");
    assert!(cam.open_plan().is_none());
    assert_eq!(cam.state(), DeviceState::Open);
}

#[test]
fn camera_hands_out_a_captured_frame_piece_by_piece() {
    let mut cam = CameraDriver::new("camera://1");
    assert!(matches!(cam.source(), CameraSource::Camera(1)));
    cam.frame_captured(vec![1, 2, 3, 4, 5]);
    let mut buf = [0u8; 3];
    assert_eq!(cam.read(&mut buf).unwrap(), 3);
    assert_eq!(buf, [1, 2, 3]);
    assert_eq!(cam.read(&mut buf).unwrap(), 2);
    assert_eq!(buf, [4, 5, 3]);
    assert_eq!(cam.read(&mut buf).unwrap(), 0);
    cam.frame_captured(vec![1, 1, 1, 1]);
    cam.read(&mut buf).unwrap();
    cam.frame_captured(vec![9]);
    assert_eq!(cam.read(&mut buf).unwrap(), 1);
    assert_eq!(buf[0], 9);
}

#[test]
fn camera_takes_no_data() {
    let cam = CameraDriver::new("camera://0");
    assert_eq!(
        cam.write(b"x").unwrap_err().message(),
        "Unsupported device operation 'write' for device 'camera://0'"
    );
    assert_eq!(cam.read_buffer_size(), 4 * 1024 * 1024);
    assert_eq!(cam.display(), "CameraDriver(camera://0)");
    assert_eq!(cam.device_path(), "camera://0");
}

#[test]
fn keyboard_file_backed_reads_lines() {
    let mut k = KeyboardDriver::new("file:///tmp/keyboard_input.txt");
    assert_eq!(k.file().unwrap(), "/tmp/keyboard_input.txt");
    k.reader_opened();
    assert_eq!(k.read_plan().unwrap(), ReadSource::Line);
    let mut buf = [0u8; 64];
    let n = fill(&mut buf, b"hello\n");
    assert_eq!(&buf[..n], b"hello\n");
    assert!(matches!(
        k.write_plan(),
        Err(DeviceError::UnsupportedOperation { operation: "write", .. })
    ));
}

#[test]
fn keyboard_close_then_reopen() {
    let mut k = KeyboardDriver::new("file:///tmp/keyboard_reopen.txt");
    k.close();
    assert_eq!(k.state(), DeviceState::Closed);
    assert!(matches!(k.read_plan(), Err(DeviceError::NotOpen(_))));
    assert!(matches!(k.write_plan(), Err(DeviceError::NotOpen(_))));
    assert_eq!(k.open_plan().unwrap().unwrap(), "/tmp/keyboard_reopen.txt");
    k.opened();
    assert_eq!(k.state(), DeviceState::Open);
    assert_eq!(k.read_plan().unwrap(), ReadSource::Line);
}

#[test]
fn keyboard_open_is_idempotent() {
    let k = KeyboardDriver::new("input://kbd");
    assert!(k.open_plan().unwrap().is_none());
    let mut k = k;
    k.close();
    assert_eq!(
        k.open_plan().unwrap_err().message(),
        "Unsupported device operation 'open' for device 'input://kbd'"
    );
}

#[test]
fn keyboard_captured_keys_wait_for_a_reader() {
    let mut k = KeyboardDriver::new("input://kbd");
    k.key_captured(b"[Tab]");
    k.key_captured(b"a");
    assert_eq!(k.read_plan().unwrap(), ReadSource::Waiting);
    let mut buf = [0u8; 4];
    assert_eq!(k.read_waiting(&mut buf), 4);
    assert_eq!(&buf, b"[Tab");
    assert_eq!(k.read_waiting(&mut buf), 2);
    assert_eq!(&buf[..2], b"]a");
    assert_eq!(k.read_waiting(&mut buf), 0);
    assert!(k.write_plan().is_ok());
}

#[test]
fn key_names() {
    assert_eq!(key_text(0x0D, ""), "\n");
    assert_eq!(key_text(0x28, "x"), "[Down]");
    assert_eq!(key_text(0x88, "y"), "y");
    assert_eq!(vk_to_text(0x0D, &[]), "\n");
    assert_eq!(vk_to_text(0x28, &[0x78]), "[Down]");
    assert_eq!(vk_to_text(0x70, &[]), "[F1]");
    assert_eq!(vk_to_text(0x87, &[]), "[F24]");
    assert_eq!(vk_to_text(0x88, &[0x79]), "y");
    assert_eq!(vk_to_text(0x41, &[0x61]), "a");
    assert_eq!(vk_to_text(0x41, &[0xD83D, 0xDE00]), "\u{1F600}");
    assert_eq!(vk_to_text(0x41, &[0xD83D]), "\u{FFFD}");
    assert_eq!(vk_to_text(0x41, &[0xDE00, 0xD83D]), "\u{FFFD}\u{FFFD}");
    assert_eq!(vk_to_text(0x41, &[0xD83D, 0xD83D, 0xDE00]), "\u{FFFD}\u{1F600}");
    assert_eq!(vk_to_text(0x41, &[0xD83D, 0x61]), "\u{FFFD}a");
    assert_eq!(vk_to_text(0x41, &[0xDBFF, 0xDFFF]), "\u{10FFFF}");
    assert_eq!(vk_to_text(0x41, &[0xD7FF, 0xE000]), "\u{D7FF}\u{E000}");
    assert_eq!(vk_to_text(0x41, &[]), "");
    assert_eq!(vk_to_text(0x1_0008, &[]), "[Backspace]");
}

#[test]
fn strokes_type_bytes() {
    let mut scans = [-1i16; 256];
    scans[b'a' as usize] = 0x41;
    scans[b'A' as usize] = 0x141; // with shift
    let strokes = plan_strokes(b"aA\n\x01?", &scans);
    let down_up = |vk: u16| vec![KeyStroke { vk, up: false }, KeyStroke { vk, up: true }];
    let expected: Vec<KeyStroke> =
        [down_up(0x41), down_up(0x41), down_up(0x0D)].concat();
    assert_eq!(strokes, expected);
}

#[test]
fn typing_comes_to() {
    assert_eq!(inject_outcome(0, 0).unwrap(), 0);
    assert_eq!(inject_outcome(6, 6).unwrap(), 3);
    assert_eq!(
        inject_outcome(6, 0).unwrap_err().message(),
        "Device I/O error: SendInput failed — no window has keyboard focus?"
    );
    assert_eq!(
        inject_keys(b"x").unwrap_err().message(),
        "Unsupported device operation 'inject' for device 'keyboard'"
    );
}

#[test]
fn serial_file_backed_read_write() {
    let mut s = SerialDriver::new("file:///tmp/serial_pipe.bin");
    assert!(matches!(s.target(), SerialTarget::File(f) if f == "/tmp/serial_pipe.bin"));
    s.attached(Backing::File);
    assert_eq!(s.read_plan().unwrap(), SerialPath::File);
    assert_eq!(s.write_plan().unwrap(), SerialPath::File);
}

#[test]
fn serial_close_then_reopen() {
    let mut s = SerialDriver::new("/dev/ttyS0");
    s.attached(Backing::Port);
    s.bytes_arrived(b"abc");
    s.close();
    assert_eq!(s.state(), DeviceState::Closed);
    assert!(matches!(s.read_plan(), Err(DeviceError::NotOpen(_))));
    assert!(matches!(s.open_plan(), Some(SerialTarget::Port(p)) if p == "/dev/ttyS0"));
    s.opened(Backing::Port);
    assert_eq!(s.state(), DeviceState::Open);
    let mut buf = [0u8; 10];
    assert_eq!(s.read_waiting(&mut buf), 0);
    s.bytes_arrived(b"data");
    let n = s.read_waiting(&mut buf);
    assert_eq!(&buf[..n], b"data");
}

#[test]
fn serial_open_is_idempotent() {
    let s = SerialDriver::new("file:///tmp/serial_idem.bin");
    assert!(s.open_plan().is_none());
    assert_eq!(s.state(), DeviceState::Open);
}

#[test]
fn serial_without_a_port_takes_no_data() {
    let s = SerialDriver::new("COM3");
    assert_eq!(s.read_plan().unwrap(), SerialPath::Port);
    assert_eq!(
        s.write_plan().unwrap_err().message(),
        "Unsupported device operation 'write' for device 'COM3'"
    );
}

#[test]
fn ssh_file_backed_read_write_lines() {
    let mut d = SshDriver::new("file:///tmp/ssh_header.txt");
    assert_eq!(d.header_file().unwrap(), "/tmp/ssh_header.txt");
    assert_eq!(reader_path(" /tmp/remote.txt \n"), "/tmp/remote.txt");
    d.reader_opened();
    d.writer_named("/tmp/local.txt\n");
    assert!(d.read_plan().is_ok());
    assert_eq!(d.write_plan().unwrap(), "/tmp/local.txt");
    d.writer_named("  \n");
    assert_eq!(d.write_plan().unwrap(), "/tmp/local.txt");
}

#[test]
fn ssh_close_then_reopen() {
    let mut d = SshDriver::new("file:///tmp/ssh_header.txt");
    d.reader_opened();
    d.close();
    assert_eq!(d.state(), DeviceState::Closed);
    assert!(matches!(d.read_plan(), Err(DeviceError::NotOpen(_))));
    assert!(matches!(d.write_plan(), Err(DeviceError::NotOpen(_))));
    assert_eq!(d.open_plan().unwrap().unwrap(), "/tmp/ssh_header.txt");
    d.reader_opened();
    d.opened();
    assert!(d.read_plan().is_ok());
    assert!(matches!(
        d.write_plan(),
        Err(DeviceError::UnsupportedOperation { operation: "write", .. })
    ));
}

#[test]
fn ssh_open_is_idempotent() {
    let mut d = SshDriver::new("ssh://host");
    assert!(d.open_plan().unwrap().is_none());
    assert!(matches!(
        d.read_plan(),
        Err(DeviceError::UnsupportedOperation { operation: "read", .. })
    ));
    d.close();
    assert!(matches!(
        d.open_plan(),
        Err(DeviceError::UnsupportedOperation { operation: "open", .. })
    ));
}
