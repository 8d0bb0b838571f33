[package]
name = "rust_chat"
version = "0.1.0"
edition = "2021"
publish = false

[dependencies]
serde_json = "=1.0.154"
tokio = { version = "=1.54.1", features = ["rt-multi-thread", "net", "io-util", "sync", "time", "macros"] }
chrono = "=0.4.45"
uuid = { version = "=1.29.0", features = ["v4"] }
dotenvy = "=0.15.7"
local-ip-address = "=0.6.13"
reqwest = { version = "=0.12.28", default-features = false }
eframe = { version = "=0.36.2", default-features = false, features = ["glow", "default_fonts", "x11"] }
egui = "=0.36.2"
egui_extras = { version = "=0.36.2", features = ["file", "image"] }
egui-file-dialog = { version = "=0.15.0", default-features = false }
