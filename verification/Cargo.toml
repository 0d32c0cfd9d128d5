[package]
name = "mentabotix"
version = "0.1.0"
edition = "2021"
publish = false

[dependencies]
log = "*"
serde_json = "*"
serialport = { version = "*", default-features = false }
