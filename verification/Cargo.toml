[package]
name = "dynamic_sensors"
version = "0.1.0"
edition = "2021"
publish = false

[dependencies]
libc = "0.2"
serde = "1"
serde_json = "1"
