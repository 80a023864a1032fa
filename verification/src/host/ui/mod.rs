//! The configuration screen of the host: what it shows and what keys do.

pub mod render;
pub mod state;
