//! What every device of the host has in common.
use crate::host::error::DeviceError;
use vstd::prelude::*;

verus! {

/// Whether the device is open or closed.
#[derive(Debug, Clone, Copy, PartialEq, Eq, Structural)]
pub enum DeviceState {
    Open,
    Closed,
}

/// What all drivers keep of their device.
///
/// Devices start open: preparations that can fail belong in the constructor of
/// a driver. Opening a device that is open does nothing; it is there to open
/// the device again after a close.
#[derive(Debug)]
pub struct NcdDevice {
    pub device_state: DeviceState,
    pub device_path: String,
}

impl NcdDevice {
    /// An open device.
    pub fn new(device_path: String) -> (r: NcdDevice)
        ensures
            r.device_state == DeviceState::Open,
            r.device_path == device_path,
    {
        NcdDevice { device_state: DeviceState::Open, device_path }
    }
}

/// Operations that every device driver implements.
pub trait NcdDeviceOperations: std::fmt::Debug + Send {
    /// Human-readable identifier of the device.
    fn device_path(&self) -> &str;

    /// Prepares the device. Has to succeed when the device is open already.
    fn open(&mut self) -> Result<(), DeviceError>;

    /// Releases what `open` acquired. Has to succeed when the device is closed
    /// already.
    fn close(&mut self) -> Result<(), DeviceError>;

    /// Reads data from the device into `buf`. Gives the number of bytes read,
    /// zero if there are none.
    fn read(&mut self, buf: &mut [u8]) -> Result<usize, DeviceError>;

    /// Writes data to the device. Gives the number of bytes written.
    fn write(&mut self, data: &[u8]) -> Result<usize, DeviceError>;

    /// The size of the buffer that `read` should be given. Drivers with large
    /// payloads choose their own.
    fn read_buffer_size(&self) -> (r: usize)
        default_ensures
            r == 64 * 1024,
    {
        64 * 1024
    }
}

} // verus!
