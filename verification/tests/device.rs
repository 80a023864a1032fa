use ncd::host::device::{DeviceState, NcdDevice, NcdDeviceOperations};
use ncd::host::error::{close_outcome, DeviceError, NcdError};
use ncd::runtime::connection_error::{ConnectionClosed, ConnectionError};

/// A minimal in-memory device used only for testing the trait
/// mechanics — not a real driver.
#[derive(Debug)]
struct TestDevice {
    state: DeviceState,
    path: String,
    buffer: Vec<u8>,
}

impl TestDevice {
    fn new(path: &str) -> Self {
        TestDevice {
            state: DeviceState::Open,
            path: path.to_string(),
            buffer: Vec::new(),
        }
    }
}

impl NcdDeviceOperations for TestDevice {
    fn device_path(&self) -> &str {
        &self.path
    }

    fn open(&mut self) -> Result<(), DeviceError> {
        self.state = DeviceState::Open;
        Ok(())
    }

    fn close(&mut self) -> Result<(), DeviceError> {
        self.state = DeviceState::Closed;
        Ok(())
    }

    fn read(&mut self, buf: &mut [u8]) -> Result<usize, DeviceError> {
        if self.state != DeviceState::Open {
            return Err(DeviceError::NotOpen(self.path.clone()));
        }
        let n = self.buffer.len().min(buf.len());
        buf[..n].copy_from_slice(&self.buffer[..n]);
        self.buffer.drain(..n);
        Ok(n)
    }

    fn write(&mut self, data: &[u8]) -> Result<usize, DeviceError> {
        if self.state != DeviceState::Open {
            return Err(DeviceError::NotOpen(self.path.clone()));
        }
        self.buffer.extend_from_slice(data);
        Ok(data.len())
    }
}

#[test]
fn write_then_read() {
    let mut dev = TestDevice::new("/dev/test");

    let n = dev.write(b"hello").unwrap();
    assert_eq!(n, 5);

    let mut buf = [0u8; 10];
    let n = dev.read(&mut buf).unwrap();
    assert_eq!(n, 5);
    assert_eq!(&buf[..5], b"hello");
}

#[test]
fn read_drains_buffer() {
    let mut dev = TestDevice::new("/dev/test");
    dev.write(b"world").unwrap();

    let mut buf = [0u8; 10];
    dev.read(&mut buf).unwrap();
    let n = dev.read(&mut buf).unwrap();
    assert_eq!(n, 0);
}

#[test]
fn device_open_is_idempotent() {
    let mut dev = TestDevice::new("/dev/test");
    // Already Open by default — open() should succeed
    assert!(dev.open().is_ok());
    assert_eq!(dev.state, DeviceState::Open);
}

#[test]
fn device_close_then_reopen() {
    let mut dev = TestDevice::new("/dev/test");
    dev.close().unwrap();
    assert_eq!(dev.state, DeviceState::Closed);
    // read on closed device fails
    let mut buf = [0u8; 10];
    assert!(dev.read(&mut buf).is_err());
    // re-open
    dev.open().unwrap();
    assert!(dev.read(&mut buf).is_ok());
}

#[test]
fn default_read_buffer_size() {
    let dev = TestDevice::new("/dev/test");
    assert_eq!(dev.read_buffer_size(), 64 * 1024);
}

#[test]
fn new_devices_are_open() {
    let d = NcdDevice::new("/dev/x".to_string());
    assert_eq!(d.device_state, DeviceState::Open);
    assert_eq!(d.device_path, "/dev/x");
}

#[test]
fn device_error_texts() {
    assert_eq!(DeviceError::NotOpen("p".to_string()).message(), "Device is not open: p");
    assert_eq!(DeviceError::AlreadyOpen("p".to_string()).message(), "Device is already open: p");
    assert_eq!(DeviceError::io("open frame file", "gone").message(),
        "Device I/O error: open frame file: gone");
    assert_eq!(
        DeviceError::UnsupportedOperation { device: "cam".to_string(), operation: "write" }
            .message(),
        "Unsupported device operation 'write' for device 'cam'"
    );
}

#[test]
fn closing_a_connection_comes_to() {
    assert!(close_outcome(Ok(Ok(()))).is_ok());
    assert!(matches!(
        close_outcome(Ok(Err(ConnectionError::CloseTimeout))),
        Err(NcdError::CloseConnectionError(ConnectionClosed::Error(ConnectionError::CloseTimeout)))
    ));
    assert!(matches!(
        close_outcome(Err(ConnectionClosed::Normal)),
        Err(NcdError::CloseConnectionError(ConnectionClosed::Normal))
    ));
}
