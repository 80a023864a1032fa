[package]
name = "ncd"
version = "0.1.0"
edition = "2021"
publish = false

[dependencies]
bytes = "1"
clap = { version = "4", features = ["derive"] }
crossterm = "0.28"
directories = "6"
glob = "0.3"
libc = "0.2"
nokhwa = { version = "0.10", default-features = false, features = ["input-avfoundation", "input-msmf"] }
objc = "0.2"
rand = "0.9"
ratatui = "0.29"
regex = "1"
serde = { version = "1", features = ["derive"] }
serde_json = "1"
serialport = { version = "4", default-features = false }
sha2 = "0.10"
tar = "0.4"
tempfile = "3"
thiserror = "2"
tokio = { version = "1", features = ["full"] }
toml = "0.8"
windows = { version = "0.58", features = ["Win32_Foundation", "Win32_Devices_DeviceAndDriverInstallation", "Win32_System_LibraryLoader", "Win32_System_Threading", "Win32_UI_Input_KeyboardAndMouse", "Win32_UI_WindowsAndMessaging"] }
zip = { version = "2", default-features = false, features = ["deflate"] }
