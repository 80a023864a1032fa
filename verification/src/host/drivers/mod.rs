//! Drivers for the devices of the host.

pub mod buffer;
pub mod camera;
pub mod keyboard;
pub mod serial;
pub mod ssh;
