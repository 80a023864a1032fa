//! Network character devices: remote devices that are used like local ones.
//!
//! - [`proto`]: the protocol on the wire, from bytes to packets and back.
//! - [`runtime`]: the life of a connection between two peers.
//! - [`ncdd`]: the daemon that makes remote devices local character devices.
//! - [`host`]: the host that offers its devices to remote machines.
//! - [`text`], [`scan`] and [`wire`]: what all of them use.
//!
//! Nothing in the library touches the network, files or a terminal: it is told
//! what happened and says what is to be done.

pub mod host;
pub mod ncdd;
pub mod proto;
pub mod runtime;
pub mod scan;
pub mod text;
pub mod wire;
