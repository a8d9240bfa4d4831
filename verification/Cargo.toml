[package]
name = "modbus_rtu"
version = "0.1.0"
edition = "2021"
publish = false

[dependencies]
serde_json = "1"
serde = { version = "1", features = ["derive"] }
anyhow = "1"
clap = { version = "4", features = ["derive"] }
serialport = { version = "4", default-features = false }
eframe = { version = "0.30", default-features = false, features = ["default_fonts", "glow", "x11"] }
