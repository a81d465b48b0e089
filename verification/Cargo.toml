[package]
name = "usb_hub_control"
version = "0.1.0"
edition = "2021"
publish = false

[dependencies]
nusb = "0.2"
clap = { version = "4", features = ["derive"] }
env_logger = "0.11"
log = "0.4"
