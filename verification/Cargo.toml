[package]
name = "rdwm"
version = "0.1.0"
edition = "2021"
publish = false

[dependencies]
indexmap = "2"
xcb = "1"
xkbcommon = { version = "*", default-features = false }
log = "0.4"
env_logger = "0.11"
