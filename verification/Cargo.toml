[package]
name = "findbt"
version = "0.1.0"
edition = "2021"
publish = false

[dependencies]
chrono = "0.4"
serde = { version = "1", features = ["derive"] }
serde_json = "1"
thiserror = "2"
egui = "*"
eframe = { version = "*", default-features = false, features = ["glow", "default_fonts", "x11"] }
rfd = "*"
winreg = "*"
objc2 = "*"
objc2-foundation = "*"
objc2-core-bluetooth = "*"
objc2-io-bluetooth = "*"
windows-core = "*"
windows-collections = "*"
