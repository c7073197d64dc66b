[package]
name = "codex_keyboard_quota"
version = "0.1.0"
edition = "2021"
publish = false

[dependencies]
anyhow = "=1.0.104"
base64 = "=0.22.1"
chrono = { version = "=0.4.45", default-features = false, features = ["clock", "std"] }
crossbeam-channel = "=0.5.17"
dirs = "=6.0.0"
eframe = { version = "=0.31.1", default-features = false, features = ["default_fonts", "wgpu", "x11"] }
fs2 = "=0.4.3"
hidapi = { version = "=2.6.7", default-features = false, features = ["linux-native-basic-udev"] }
reqwest = { version = "=0.12.28", default-features = false, features = ["blocking", "rustls-tls"] }
rquickjs = "=0.9.0"
rusqlite = { version = "=0.32.1", features = ["bundled"] }
serde = { version = "=1.0.229", features = ["derive"] }
serde_json = "=1.0.154"
toml = "=0.8.23"
winreg = "=0.55.0"
