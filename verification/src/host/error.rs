//! What can go wrong on the host.
use crate::runtime::connection_error::{ConnectionClosed, ConnectionCreateError, ConnectionError};
use vstd::prelude::*;

verus! {

/// A failure of the host.
#[derive(Debug)]
pub enum NcdError {
    CreateConnectionError(ConnectionCreateError),
    CloseConnectionError(ConnectionClosed),
    InnerConnectionError(ConnectionClosed),
    DeviceError(DeviceError),
}

/// A failure of a device.
#[derive(Debug)]
pub enum DeviceError {
    /// The device is closed.
    NotOpen(String),
    /// The device is open already.
    AlreadyOpen(String),
    /// The operating system refused.
    Io(String),
    /// The device cannot do that.
    UnsupportedOperation { device: String, operation: &'static str },
}

/// The mathematical content of a [`DeviceError`].
pub enum DeviceErrorView {
    NotOpen(Seq<char>),
    AlreadyOpen(Seq<char>),
    Io(Seq<char>),
    UnsupportedOperation { device: Seq<char>, operation: Seq<char> },
}

impl View for DeviceError {
    type V = DeviceErrorView;

    open spec fn view(&self) -> DeviceErrorView {
        match self {
            DeviceError::NotOpen(path) => DeviceErrorView::NotOpen(path@),
            DeviceError::AlreadyOpen(path) => DeviceErrorView::AlreadyOpen(path@),
            DeviceError::Io(text) => DeviceErrorView::Io(text@),
            DeviceError::UnsupportedOperation { device, operation } =>
                DeviceErrorView::UnsupportedOperation { device: device@, operation: operation@ },
        }
    }
}

/// The text of a device failure.
pub open spec fn device_error_message(e: DeviceErrorView) -> Seq<char> {
    match e {
        DeviceErrorView::NotOpen(path) => "Device is not open: "@ + path,
        DeviceErrorView::AlreadyOpen(path) => "Device is already open: "@ + path,
        DeviceErrorView::Io(text) => "Device I/O error: "@ + text,
        DeviceErrorView::UnsupportedOperation { device, operation } =>
            "Unsupported device operation '"@ + operation + "' for device '"@ + device + "'"@,
    }
}

impl DeviceError {
    /// The text shown to a person.
    pub fn message(&self) -> (r: String)
        ensures
            r@ == device_error_message(self@),
    {
        match self {
            DeviceError::NotOpen(path) => {
                let mut out = "Device is not open: ".to_owned();
                out.push_str(path.as_str());
                out
            },
            DeviceError::AlreadyOpen(path) => {
                let mut out = "Device is already open: ".to_owned();
                out.push_str(path.as_str());
                out
            },
            DeviceError::Io(text) => {
                let mut out = "Device I/O error: ".to_owned();
                out.push_str(text.as_str());
                out
            },
            DeviceError::UnsupportedOperation { device, operation } => {
                let mut out = "Unsupported device operation '".to_owned();
                out.push_str(operation);
                out.push_str("' for device '");
                out.push_str(device.as_str());
                out.push_str("'");
                out
            },
        }
    }

    /// A failure of the operating system, with what was being done.
    pub fn io(doing: &str, error: &str) -> (r: DeviceError)
        ensures
            r@ == DeviceErrorView::Io(doing@ + ": "@ + error@),
    {
        let mut out = doing.to_owned();
        out.push_str(": ");
        out.push_str(error);
        DeviceError::Io(out)
    }
}

/// What closing a connection comes to: the task may have failed, or may have
/// ended before.
pub fn close_outcome(
    closed: Result<Result<(), ConnectionError>, ConnectionClosed>,
) -> (r: Result<(), NcdError>)
    ensures
        match closed {
            Ok(Ok(())) => r is Ok,
            Ok(Err(e)) => r matches Err(NcdError::CloseConnectionError(c)) && c
                == ConnectionClosed::Error(e),
            Err(c) => r matches Err(NcdError::CloseConnectionError(d)) && c == d,
        },
{
    match closed {
        Ok(Ok(())) => Ok(()),
        Ok(Err(e)) => Err(NcdError::CloseConnectionError(ConnectionClosed::Error(e))),
        Err(c) => Err(NcdError::CloseConnectionError(c)),
    }
}

/// The text of a failure names the device, what the system said, or what the
/// device cannot do.
pub proof fn law_failures_are_named(path: Seq<char>, operation: Seq<char>)
    ensures
        device_error_message(DeviceErrorView::NotOpen(path)) == "Device is not open: "@ + path,
        device_error_message(DeviceErrorView::AlreadyOpen(path)) == "Device is already open: "@
            + path,
        device_error_message(DeviceErrorView::Io(path)) == "Device I/O error: "@ + path,
        device_error_message(
            DeviceErrorView::UnsupportedOperation { device: path, operation },
        ) == "Unsupported device operation '"@ + operation + "' for device '"@ + path + "'"@,
{
}

} // verus!
