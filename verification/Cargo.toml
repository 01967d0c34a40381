[package]
name = "prjfs"
version = "0.1.0"
edition = "2021"
publish = false

[dependencies]
anyhow = "1"
env_logger = "*"
log = "0.4"
winapi = { version = "0.3", features = ["combaseapi", "guiddef", "minwindef", "ntdef", "winbase", "winerror", "winnt"] }
winreg = "*"
