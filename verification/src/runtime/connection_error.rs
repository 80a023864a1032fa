//! How a connection can fail to come up, and how it can end.
use crate::proto::error::{error_message, Error, ErrorView};
use crate::runtime::net::SocketAddress;
use vstd::prelude::*;

verus! {

/// Why a connection could not be opened.
#[derive(Debug)]
pub enum ConnectionCreateError {
    /// The operating system refused; its words.
    Io(String),
    /// Nobody answered in time.
    ConnectTimeout { addr: SocketAddress, timeout_ms: u64 },
    /// The peer answered with the wrong packet.
    HandshakeError(String),
    /// A packet could not be sent or received.
    PacketTransferError(ConnectionError),
}

/// Why a connection is closed.
#[derive(Debug)]
pub enum ConnectionClosed {
    Normal,
    Error(ConnectionError),
    Unknown(String),
}

/// Why a running connection failed.
#[derive(Debug)]
pub enum ConnectionError {
    /// The operating system refused; its words.
    Io(String),
    ProtocolError(Error),
    PeerInactiveTimeout,
    UnexpectedEOF,
    CloseTimeout,
    PeerClosed,
}

/// The mathematical content of a [`ConnectionError`].
pub enum ConnectionErrorView {
    Io(Seq<char>),
    ProtocolError(ErrorView),
    PeerInactiveTimeout,
    UnexpectedEOF,
    CloseTimeout,
    PeerClosed,
}

/// The mathematical content of a [`ConnectionClosed`].
pub enum ConnectionClosedView {
    Normal,
    Error(ConnectionErrorView),
    Unknown(Seq<char>),
}

/// The mathematical content of a [`ConnectionCreateError`].
pub enum ConnectionCreateErrorView {
    Io(Seq<char>),
    ConnectTimeout { addr: SocketAddress, timeout_ms: u64 },
    HandshakeError(Seq<char>),
    PacketTransferError(ConnectionErrorView),
}

impl View for ConnectionError {
    type V = ConnectionErrorView;

    open spec fn view(&self) -> ConnectionErrorView {
        match self {
            ConnectionError::Io(text) => ConnectionErrorView::Io(text@),
            ConnectionError::ProtocolError(e) => ConnectionErrorView::ProtocolError(e@),
            ConnectionError::PeerInactiveTimeout => ConnectionErrorView::PeerInactiveTimeout,
            ConnectionError::UnexpectedEOF => ConnectionErrorView::UnexpectedEOF,
            ConnectionError::CloseTimeout => ConnectionErrorView::CloseTimeout,
            ConnectionError::PeerClosed => ConnectionErrorView::PeerClosed,
        }
    }
}

impl View for ConnectionClosed {
    type V = ConnectionClosedView;

    open spec fn view(&self) -> ConnectionClosedView {
        match self {
            ConnectionClosed::Normal => ConnectionClosedView::Normal,
            ConnectionClosed::Error(e) => ConnectionClosedView::Error(e@),
            ConnectionClosed::Unknown(text) => ConnectionClosedView::Unknown(text@),
        }
    }
}

impl View for ConnectionCreateError {
    type V = ConnectionCreateErrorView;

    open spec fn view(&self) -> ConnectionCreateErrorView {
        match self {
            ConnectionCreateError::Io(text) => ConnectionCreateErrorView::Io(text@),
            ConnectionCreateError::ConnectTimeout { addr, timeout_ms } =>
                ConnectionCreateErrorView::ConnectTimeout { addr: *addr, timeout_ms: *timeout_ms },
            ConnectionCreateError::HandshakeError(text) =>
                ConnectionCreateErrorView::HandshakeError(text@),
            ConnectionCreateError::PacketTransferError(e) =>
                ConnectionCreateErrorView::PacketTransferError(e@),
        }
    }
}

/// How a task ended, as mathematical content.
pub open spec fn result_view(r: Result<(), ConnectionError>) -> Result<(), ConnectionErrorView> {
    match r {
        Ok(()) => Ok(()),
        Err(e) => Err(e@),
    }
}

/// The text of a connection failure.
pub open spec fn connection_error_message(e: ConnectionErrorView) -> Seq<char> {
    match e {
        ConnectionErrorView::Io(text) => "IO error: "@ + text,
        ConnectionErrorView::ProtocolError(p) => "Protocol error: "@ + error_message(p),
        ConnectionErrorView::PeerInactiveTimeout => "Peer inactive timeout"@,
        ConnectionErrorView::UnexpectedEOF => "Received unexpected EOF"@,
        ConnectionErrorView::CloseTimeout => "Close timeout"@,
        ConnectionErrorView::PeerClosed => "Peer closed the connection"@,
    }
}

/// The text that says why a connection is closed.
pub open spec fn connection_closed_message(c: ConnectionClosedView) -> Seq<char> {
    match c {
        ConnectionClosedView::Normal => "Closed normally"@,
        ConnectionClosedView::Error(e) => "Closed due to error: "@ + connection_error_message(e),
        ConnectionClosedView::Unknown(text) => "Unknown error: "@ + text,
    }
}

impl ConnectionError {
    /// The text shown to a person.
    pub fn message(&self) -> (r: String)
        ensures
            r@ == connection_error_message(self@),
    {
        match self {
            ConnectionError::Io(text) => {
                let mut out = "IO error: ".to_owned();
                out.push_str(text.as_str());
                out
            },
            ConnectionError::ProtocolError(e) => {
                let mut out = "Protocol error: ".to_owned();
                let inner = e.message();
                out.push_str(inner.as_str());
                out
            },
            ConnectionError::PeerInactiveTimeout => "Peer inactive timeout".to_owned(),
            ConnectionError::UnexpectedEOF => "Received unexpected EOF".to_owned(),
            ConnectionError::CloseTimeout => "Close timeout".to_owned(),
            ConnectionError::PeerClosed => "Peer closed the connection".to_owned(),
        }
    }

    /// The same failure once more.
    pub fn duplicate(&self) -> (r: ConnectionError)
        ensures
            r@ == self@,
    {
        match self {
            ConnectionError::Io(text) => ConnectionError::Io(text.clone()),
            ConnectionError::ProtocolError(e) => ConnectionError::ProtocolError(e.duplicate()),
            ConnectionError::PeerInactiveTimeout => ConnectionError::PeerInactiveTimeout,
            ConnectionError::UnexpectedEOF => ConnectionError::UnexpectedEOF,
            ConnectionError::CloseTimeout => ConnectionError::CloseTimeout,
            ConnectionError::PeerClosed => ConnectionError::PeerClosed,
        }
    }
}

impl ConnectionClosed {
    /// The text shown to a person.
    pub fn message(&self) -> (r: String)
        ensures
            r@ == connection_closed_message(self@),
    {
        match self {
            ConnectionClosed::Normal => "Closed normally".to_owned(),
            ConnectionClosed::Error(e) => {
                let mut out = "Closed due to error: ".to_owned();
                let inner = e.message();
                out.push_str(inner.as_str());
                out
            },
            ConnectionClosed::Unknown(text) => {
                let mut out = "Unknown error: ".to_owned();
                out.push_str(text.as_str());
                out
            },
        }
    }
}

/// Why a connection is closed contains the text of the failure, if one closed
/// it.
pub proof fn law_reasons_are_told(e: ConnectionErrorView, text: Seq<char>)
    ensures
        connection_closed_message(ConnectionClosedView::Normal) == "Closed normally"@,
        connection_closed_message(ConnectionClosedView::Error(e)) == "Closed due to error: "@
            + connection_error_message(e),
        connection_closed_message(ConnectionClosedView::Unknown(text)) == "Unknown error: "@ + text,
        connection_error_message(ConnectionErrorView::Io(text)) == "IO error: "@ + text,
        connection_error_message(ConnectionErrorView::PeerInactiveTimeout)
            == "Peer inactive timeout"@,
        connection_error_message(ConnectionErrorView::UnexpectedEOF) == "Received unexpected EOF"@,
        connection_error_message(ConnectionErrorView::CloseTimeout) == "Close timeout"@,
        connection_error_message(ConnectionErrorView::PeerClosed) == "Peer closed the connection"@,
{
}

} // verus!
