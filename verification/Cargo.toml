[package]
name = "nwm"
version = "0.1.0"
edition = "2021"
publish = false

[dependencies]
x11rb = "*"
mlua = { version = "*", features = ["lua54", "vendored"] }
log = "*"
env_logger = "*"
colored = "*"
platform-dirs = "*"
