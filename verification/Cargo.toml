[package]
name = "fuse"
version = "0.1.0"
edition = "2021"
publish = false

[dependencies]
nix = "0.26"
crossbeam-channel = "0.5"
native-dialog = "0.6"
flume = "0.10"
eframe = { version = "=0.21.3", default-features = false, features = ["default_fonts", "glow", "persistence"] }
egui = "0.21"
serde = { version = "1", features = ["derive"] }
reqwest = { version = "0.11", default-features = false, features = ["stream", "rustls-tls"] }
futures-util = "0.3"
tokio = { version = "1", features = ["rt"] }
thiserror = "1"
self_update = { version = "0.36", default-features = false, features = ["rustls"] }
