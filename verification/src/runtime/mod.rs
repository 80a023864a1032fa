//! Connections: handshake, liveness, requests of the user, and closing.

pub mod connection;
pub mod connection_error;
pub mod connection_laws;
pub mod handler;
pub mod net;
pub mod status;
