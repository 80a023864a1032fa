//! Adapters: programs that talk to the devices, and the bundle they come in.

pub mod adapter;
pub mod archive;
pub mod bundle;
pub mod list;
