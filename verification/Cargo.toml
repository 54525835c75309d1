[package]
name = "serial_manager"
version = "0.1.0"
edition = "2021"
publish = false

[dependencies]
env_logger = "0.11"
futures-util = "0.3"
log = "0.4"
mdns = "3.0"
once_cell = "1"
serde = { version = "1", features = ["derive"] }
serde_json = "1"
serialport = { version = "4", default-features = false }
