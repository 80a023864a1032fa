//! The Network Character Device Protocol: frames, packets and byte streams.

pub mod codec;
pub mod delivery;
pub mod error;
pub mod frame;
pub mod packet;
pub mod protocol;
pub mod stream;
