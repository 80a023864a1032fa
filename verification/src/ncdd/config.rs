//! The configuration of the daemon.
use crate::runtime::net::IpAddress;
use vstd::prelude::*;

verus! {

/// A remote device to be made a local one.
#[derive(Debug)]
pub struct DeviceConfig {
    /// The name of the device node.
    pub name: String,
    pub remote_ip: IpAddress,
    pub remote_port: u16,
}

/// Where the configuration is looked for.
pub fn default_config_path() -> (r: String)
    ensures
        r@ == "/etc/ncd/config.toml"@,
{
    "/etc/ncd/config.toml".to_owned()
}

/// The path of the configuration; `exists` says whether there is a file.
pub fn get_config_path(exists: bool) -> (r: Option<String>)
    ensures
        match r {
            Some(path) => exists && path@ == "/etc/ncd/config.toml"@,
            None => !exists,
        },
{
    if exists {
        Some(default_config_path())
    } else {
        None
    }
}

} // verus!
