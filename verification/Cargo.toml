[package]
name = "edt"
version = "0.1.0"
edition = "2021"
publish = false

[dependencies]
serde = { version = "1", features = ["derive"] }
serde_json = "1"
thiserror = "2"
anyhow = "1"
directories = "6"
image = { version = "0.25", default-features = false, features = ["png"] }
once_cell = "1"
parking_lot = "0.12"
crossbeam-channel = "0.5"
tracing = "0.1"
tracing-subscriber = "0.3"
eframe = { version = "=0.31.1", default-features = false, features = ["default_fonts", "glow", "x11"] }
egui = "=0.31.1"
rfd = { version = "=0.15.4", default-features = false, features = ["gtk3"] }
