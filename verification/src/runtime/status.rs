//! A short answer to the question how a connection is doing.
use crate::runtime::connection::ConnState;
use crate::runtime::net::SocketAddress;
use vstd::prelude::*;

verus! {

#[derive(Debug, Clone, Copy, PartialEq, Eq, Structural)]
pub struct Status {
    pub state: ConnState,
    pub peer_addr: Option<SocketAddress>,
}

impl Status {
    /// The status of a connection with a known peer.
    pub fn new(state: ConnState, peer_addr: SocketAddress) -> (r: Status)
        ensures
            r == (Status { state, peer_addr: Some(peer_addr) }),
    {
        Status { state, peer_addr: Some(peer_addr) }
    }

    pub fn is_connected(&self) -> (r: bool)
        ensures
            r == (self.state == ConnState::Connected),
    {
        self.state == ConnState::Connected
    }

    pub fn is_closed(&self) -> (r: bool)
        ensures
            r == (self.state == ConnState::Closed),
    {
        self.state == ConnState::Closed
    }
}

} // verus!
