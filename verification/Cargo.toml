[package]
name = "device_identity"
version = "0.1.0"
edition = "2021"
publish = false

[dependencies]
sysinfo = { version = "=0.39.6", default-features = false, features = ["system", "network"] }
get_if_addrs = "=0.5.3"
serde = { version = "1", features = ["derive"] }
serde_json = "1"
tauri = { version = "2", default-features = false, features = ["wry"] }
