[package]
name = "security_camera_viewer"
version = "0.1.0"
edition = "2021"
publish = false

[dependencies]
anyhow = "1"
byteorder = "1"
chrono = "0.4"
clap = { version = "4", features = ["derive"] }
env_logger = "0.10"
image = { version = "0.24", default-features = false, features = ["jpeg"] }
log = "0.4"
serialport = { version = "4", default-features = false }
