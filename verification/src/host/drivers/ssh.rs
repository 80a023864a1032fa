//! The SSH driver.
//!
//! An SSH device at a path of the form `file://...` is a header file: its
//! first line names the file whose lines are read, its second line the file
//! that is written. Real SSH connections are not supported.
use crate::host::device::{DeviceState, NcdDevice};
use crate::host::drivers::buffer::{backing_file, file_of};
use crate::host::error::{DeviceError, DeviceErrorView};
use crate::scan::{trim, trimmed};
use crate::text::{chars_of, string_of};
use vstd::prelude::*;

verus! {

/// The mathematical content of an [`SshDriver`].
#[verifier::ext_equal]
pub struct SshView {
    pub state: DeviceState,
    pub path: Seq<char>,
    /// Lines can be read.
    pub has_reader: bool,
    /// The file that is written.
    pub writer_path: Option<Seq<char>>,
}

/// An SSH device.
#[derive(Debug)]
pub struct SshDriver {
    device: NcdDevice,
    has_reader: bool,
    writer_path: Option<String>,
}

/// The content of a path that may be missing.
pub open spec fn path_view(p: Option<String>) -> Option<Seq<char>> {
    match p {
        Some(p) => Some(p@),
        None => None,
    }
}

impl View for SshDriver {
    type V = SshView;

    closed spec fn view(&self) -> SshView {
        SshView {
            state: self.device.device_state,
            path: self.device.device_path@,
            has_reader: self.has_reader,
            writer_path: path_view(self.writer_path),
        }
    }
}

/// The file to read that the first line of a header names.
pub fn reader_path(first_line: &str) -> (r: String)
    ensures
        r@ == trimmed(first_line@),
{
    let chars = chars_of(first_line);
    string_of(trim(chars.as_slice()))
}

/// The file to write that the second line of a header names, if it names one.
pub open spec fn named_writer(second_line: Seq<char>) -> Option<Seq<char>> {
    if trimmed(second_line).len() > 0 {
        Some(trimmed(second_line))
    } else {
        None
    }
}

/// The file to write that the second line of a header names, if it names one.
pub fn writer_path(second_line: &str) -> (r: Option<String>)
    ensures
        path_view(r) == named_writer(second_line@),
{
    let chars = chars_of(second_line);
    let name = trim(chars.as_slice());
    if name.len() > 0 {
        Some(string_of(name))
    } else {
        None
    }
}

impl SshDriver {
    /// An open SSH device with nothing behind it yet.
    pub fn new(device_path: &str) -> (r: SshDriver)
        ensures
            r@ == (SshView {
                state: DeviceState::Open,
                path: device_path@,
                has_reader: false,
                writer_path: None,
            }),
    {
        SshDriver {
            device: NcdDevice::new(device_path.to_owned()),
            has_reader: false,
            writer_path: None,
        }
    }

    /// The header file, if there is one.
    pub fn header_file(&self) -> (r: Option<String>)
        ensures
            match r {
                Some(file) => file_of(self@.path) == Some(file@),
                None => file_of(self@.path) is None,
            },
    {
        backing_file(self.device.device_path.as_str())
    }

    pub fn device_path(&self) -> (r: &str)
        ensures
            r@ == self@.path,
    {
        self.device.device_path.as_str()
    }

    pub fn state(&self) -> (r: DeviceState)
        ensures
            r == self@.state,
    {
        self.device.device_state
    }

    pub fn read_buffer_size(&self) -> (r: usize)
        ensures
            r == 64 * 1024,
    {
        64 * 1024
    }

    /// How a person names the driver.
    pub fn display(&self) -> (r: String)
        ensures
            r@ == "SshDriver("@ + self@.path + ")"@,
    {
        let mut out = "SshDriver(".to_owned();
        out.push_str(self.device.device_path.as_str());
        out.push_str(")");
        out
    }

    /// The file to read was opened.
    pub fn reader_opened(&mut self)
        ensures
            final(self)@ == (SshView { has_reader: true, ..old(self)@ }),
    {
        self.has_reader = true;
    }

    /// The second line of the header was read: it may name a file to write.
    pub fn writer_named(&mut self, second_line: &str)
        ensures
            final(self)@ == (SshView {
                writer_path: if named_writer(second_line@) is Some {
                    named_writer(second_line@)
                } else {
                    old(self)@.writer_path
                },
                ..old(self)@
            }),
    {
        if let Some(path) = writer_path(second_line) {
            self.writer_path = Some(path);
        }
    }

    /// The header file to open to open the device again. Nothing has to be done
    /// for one that is open; one without a header cannot be opened.
    pub fn open_plan(&self) -> (r: Result<Option<String>, DeviceError>)
        ensures
            match r {
                Ok(None) => self@.state == DeviceState::Open,
                Ok(Some(file)) => self@.state == DeviceState::Closed && file_of(self@.path) == Some(
                    file@,
                ),
                Err(e) => self@.state == DeviceState::Closed && file_of(self@.path) is None && e@
                    == (DeviceErrorView::UnsupportedOperation {
                    device: self@.path,
                    operation: "open"@,
                }),
            },
    {
        if self.device.device_state == DeviceState::Open {
            return Ok(None);
        }
        match self.header_file() {
            Some(file) => Ok(Some(file)),
            None => Err(
                DeviceError::UnsupportedOperation {
                    device: self.device.device_path.clone(),
                    operation: "open",
                },
            ),
        }
    }

    /// The device was opened.
    pub fn opened(&mut self)
        ensures
            final(self)@ == (SshView { state: DeviceState::Open, ..old(self)@ }),
    {
        self.device.device_state = DeviceState::Open;
    }

    /// Closes the device.
    pub fn close(&mut self)
        ensures
            old(self)@.state == DeviceState::Closed ==> final(self)@ == old(self)@,
            old(self)@.state == DeviceState::Open ==> final(self)@ == (SshView {
                state: DeviceState::Closed,
                has_reader: false,
                writer_path: None,
                ..old(self)@
            }),
    {
        if self.device.device_state == DeviceState::Closed {
            return;
        }
        self.has_reader = false;
        self.writer_path = None;
        self.device.device_state = DeviceState::Closed;
    }

    /// Whether a line can be read.
    pub fn read_plan(&self) -> (r: Result<(), DeviceError>)
        ensures
            match r {
                Ok(()) => self@.state == DeviceState::Open && self@.has_reader,
                Err(e) => if self@.state == DeviceState::Closed {
                    e@ == DeviceErrorView::NotOpen(self@.path)
                } else {
                    !self@.has_reader && e@ == (DeviceErrorView::UnsupportedOperation {
                        device: self@.path,
                        operation: "read"@,
                    })
                },
            },
    {
        if self.device.device_state == DeviceState::Closed {
            return Err(DeviceError::NotOpen(self.device.device_path.clone()));
        }
        if self.has_reader {
            Ok(())
        } else {
            Err(
                DeviceError::UnsupportedOperation {
                    device: self.device.device_path.clone(),
                    operation: "read",
                },
            )
        }
    }

    /// The file that a write appends to.
    pub fn write_plan(&self) -> (r: Result<String, DeviceError>)
        ensures
            match r {
                Ok(path) => self@.state == DeviceState::Open && self@.writer_path == Some(path@),
                Err(e) => if self@.state == DeviceState::Closed {
                    e@ == DeviceErrorView::NotOpen(self@.path)
                } else {
                    self@.writer_path is None && e@ == (DeviceErrorView::UnsupportedOperation {
                        device: self@.path,
                        operation: "write"@,
                    })
                },
            },
    {
        if self.device.device_state == DeviceState::Closed {
            return Err(DeviceError::NotOpen(self.device.device_path.clone()));
        }
        match &self.writer_path {
            Some(path) => Ok(path.clone()),
            None => Err(
                DeviceError::UnsupportedOperation {
                    device: self.device.device_path.clone(),
                    operation: "write",
                },
            ),
        }
    }
}

/// A header names the file to write in its second line, without the white
/// space around it; a line of white space names none.
pub proof fn law_writers(second_line: Seq<char>)
    ensures
        named_writer(second_line) is None <==> trimmed(second_line).len() == 0,
        named_writer(second_line) matches Some(file) ==> file == trimmed(second_line),
{
}

} // verus!
