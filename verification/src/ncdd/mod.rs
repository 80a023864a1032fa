//! The daemon: remote devices as local character devices.

pub mod config;
pub mod device;
pub mod device_parser;
pub mod driver;
pub mod json;
pub mod netlink;
pub mod start;
