//! The host: local devices offered to remote machines.

pub mod adapter_loader;
pub mod app;
pub mod config;
pub mod detect;
pub mod device;
pub mod driver;
pub mod driver_loader;
pub mod drivers;
pub mod error;
pub mod key;
pub mod registry;
pub mod runtime;
pub mod session;
pub mod tui;
pub mod tui_lines;
pub mod ui;
