[package]
name = "draft"
version = "0.1.0"
edition = "2021"
publish = false

[dependencies]
hound = "=3.5.1"
anyhow = "=1.0.104"
serde = { version = "=1.0.229", features = ["derive"] }
serde_json = "=1.0.154"
reqwest = { version = "0.12", default-features = false, features = ["blocking", "json", "multipart"] }
keyring = { version = "=3.6.3", default-features = false, features = ["windows-native"] }
crossbeam-channel = "=0.5.17"
parking_lot = "=0.12.5"
svgtypes = "=0.15.3"
tiny-skia = "=0.11.4"
ttf-parser = "=0.25.1"
tracing = "=0.1.44"
winit = { version = "=0.30.13", default-features = false, features = ["rwh_06", "x11"] }
eframe = { version = "=0.29.1", default-features = false, features = ["glow", "default_fonts"] }
egui = "=0.29.1"
tray-icon = { version = "=0.19.3", default-features = false }
