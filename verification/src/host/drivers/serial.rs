//! The serial driver.
//!
//! A serial device at a path of the form `file://...` is a file that is read
//! and written directly. At any other path it is a port; what arrives there
//! waits until it is read.
use crate::host::device::{DeviceState, NcdDevice};
use crate::host::drivers::buffer::{backing_file, drain_into, file_of, filled, lesser};
use crate::host::error::{DeviceError, DeviceErrorView};
use crate::wire::push_bytes;
use vstd::prelude::*;

verus! {

/// The speed of a port.
pub const BAUD_RATE: u32 = 115200;

/// What stands behind a serial device.
#[derive(Debug, Clone, Copy, PartialEq, Eq, Structural)]
pub enum Backing {
    /// Nothing could be opened.
    Nothing,
    File,
    Port,
}

/// What has to be opened for a serial device.
#[derive(Debug)]
pub enum SerialTarget {
    File(String),
    Port(String),
}

/// The mathematical content of a [`SerialDriver`].
#[verifier::ext_equal]
pub struct SerialView {
    pub state: DeviceState,
    pub path: Seq<char>,
    pub backing: Backing,
    /// Bytes that arrived at the port, not read yet.
    pub arrived: Seq<u8>,
}

/// A serial device.
#[derive(Debug)]
pub struct SerialDriver {
    device: NcdDevice,
    backing: Backing,
    read_buffer: Vec<u8>,
}

impl View for SerialDriver {
    type V = SerialView;

    closed spec fn view(&self) -> SerialView {
        SerialView {
            state: self.device.device_state,
            path: self.device.device_path@,
            backing: self.backing,
            arrived: self.read_buffer@,
        }
    }
}

/// Whether a target is the one of a path.
pub open spec fn is_target(target: SerialTarget, path: Seq<char>) -> bool {
    match file_of(path) {
        Some(file) => target matches SerialTarget::File(f) && f@ == file,
        None => target matches SerialTarget::Port(p) && p@ == path,
    }
}

/// How a read or a write of a serial device is done.
#[derive(Debug, Clone, Copy, PartialEq, Eq, Structural)]
pub enum SerialPath {
    /// At the file.
    File,
    /// At the port, or with what arrived there.
    Port,
}

impl SerialDriver {
    /// An open serial device with nothing behind it yet.
    pub fn new(device_path: &str) -> (r: SerialDriver)
        ensures
            r@ == (SerialView {
                state: DeviceState::Open,
                path: device_path@,
                backing: Backing::Nothing,
                arrived: Seq::empty(),
            }),
    {
        let r = SerialDriver {
            device: NcdDevice::new(device_path.to_owned()),
            backing: Backing::Nothing,
            read_buffer: Vec::new(),
        };
        assert(r@.arrived =~= Seq::empty());
        r
    }

    /// What has to be opened.
    pub fn target(&self) -> (r: SerialTarget)
        ensures
            is_target(r, self@.path),
    {
        match backing_file(self.device.device_path.as_str()) {
            Some(file) => SerialTarget::File(file),
            None => SerialTarget::Port(self.device.device_path.clone()),
        }
    }

    pub fn device_path(&self) -> (r: &str)
        ensures
            r@ == self@.path,
    {
        self.device.device_path.as_str()
    }

    pub fn state(&self) -> (r: DeviceState)
        ensures
            r == self@.state,
    {
        self.device.device_state
    }

    pub fn read_buffer_size(&self) -> (r: usize)
        ensures
            r == 64 * 1024,
    {
        64 * 1024
    }

    /// How a person names the driver.
    pub fn display(&self) -> (r: String)
        ensures
            r@ == "SerialDriver("@ + self@.path + ")"@,
    {
        let mut out = "SerialDriver(".to_owned();
        out.push_str(self.device.device_path.as_str());
        out.push_str(")");
        out
    }

    /// The file or the port was opened.
    pub fn attached(&mut self, backing: Backing)
        ensures
            final(self)@ == (SerialView { backing, ..old(self)@ }),
    {
        self.backing = backing;
    }

    /// Bytes arrived at the port.
    pub fn bytes_arrived(&mut self, data: &[u8])
        ensures
            final(self)@ == (SerialView { arrived: old(self)@.arrived + data@, ..old(self)@ }),
    {
        push_bytes(&mut self.read_buffer, data);
    }

    /// What has to be opened to open the device. Nothing has to be for one that
    /// is open.
    pub fn open_plan(&self) -> (r: Option<SerialTarget>)
        ensures
            match r {
                None => self@.state == DeviceState::Open,
                Some(target) => self@.state == DeviceState::Closed && is_target(
                    target,
                    self@.path,
                ),
            },
    {
        match self.device.device_state {
            DeviceState::Open => None,
            DeviceState::Closed => Some(self.target()),
        }
    }

    /// The device was opened.
    pub fn opened(&mut self, backing: Backing)
        ensures
            final(self)@ == (SerialView { state: DeviceState::Open, backing, ..old(self)@ }),
    {
        self.backing = backing;
        self.device.device_state = DeviceState::Open;
    }

    /// Closes the device. What arrived and was not read is forgotten.
    pub fn close(&mut self)
        ensures
            old(self)@.state == DeviceState::Closed ==> final(self)@ == old(self)@,
            old(self)@.state == DeviceState::Open ==> final(self)@ == (SerialView {
                state: DeviceState::Closed,
                backing: Backing::Nothing,
                arrived: Seq::empty(),
                ..old(self)@
            }),
    {
        if self.device.device_state == DeviceState::Closed {
            return;
        }
        self.backing = Backing::Nothing;
        self.read_buffer.clear();
        self.device.device_state = DeviceState::Closed;
    }

    /// Where a read gets its bytes.
    pub fn read_plan(&self) -> (r: Result<SerialPath, DeviceError>)
        ensures
            match r {
                Ok(p) => self@.state == DeviceState::Open && (p == SerialPath::File
                    <==> self@.backing == Backing::File),
                Err(e) => self@.state == DeviceState::Closed && e@ == DeviceErrorView::NotOpen(
                    self@.path,
                ),
            },
    {
        if self.device.device_state == DeviceState::Closed {
            return Err(DeviceError::NotOpen(self.device.device_path.clone()));
        }
        if self.backing == Backing::File {
            Ok(SerialPath::File)
        } else {
            Ok(SerialPath::Port)
        }
    }

    /// Reads what arrived at the port.
    pub fn read_waiting(&mut self, buf: &mut [u8]) -> (r: usize)
        ensures
            final(buf)@ == filled(old(buf)@, old(self)@.arrived),
            r == lesser(old(self)@.arrived.len(), old(buf)@.len()),
            final(self)@ == (SerialView {
                arrived: old(self)@.arrived.skip(r as int),
                ..old(self)@
            }),
    {
        drain_into(&mut self.read_buffer, buf)
    }

    /// Where a write puts its bytes. Without a file or a port there is no
    /// place.
    pub fn write_plan(&self) -> (r: Result<SerialPath, DeviceError>)
        ensures
            match r {
                Ok(p) => self@.state == DeviceState::Open && (p == SerialPath::File ==> self@.backing
                    == Backing::File) && (p == SerialPath::Port ==> self@.backing == Backing::Port),
                Err(e) => if self@.state == DeviceState::Closed {
                    e@ == DeviceErrorView::NotOpen(self@.path)
                } else {
                    self@.backing == Backing::Nothing && e@ == (
                    DeviceErrorView::UnsupportedOperation {
                        device: self@.path,
                        operation: "write"@,
                    })
                },
            },
    {
        if self.device.device_state == DeviceState::Closed {
            return Err(DeviceError::NotOpen(self.device.device_path.clone()));
        }
        match self.backing {
            Backing::File => Ok(SerialPath::File),
            Backing::Port => Ok(SerialPath::Port),
            Backing::Nothing => Err(
                DeviceError::UnsupportedOperation {
                    device: self.device.device_path.clone(),
                    operation: "write",
                },
            ),
        }
    }
}

/// A serial device is a file where its path names one, and else the port at
/// that path.
pub proof fn law_serial_targets(path: Seq<char>, target: SerialTarget)
    requires
        is_target(target, path),
    ensures
        target is File <==> file_of(path) is Some,
        target matches SerialTarget::File(f) ==> file_of(path) == Some(f@),
        target matches SerialTarget::Port(p) ==> p@ == path,
{
}

} // verus!
