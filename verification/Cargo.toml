[package]
name = "tm20"
version = "0.1.0"
edition = "2021"
publish = false

[dependencies]
blake3 = "1"
serde = { version = "1", features = ["derive"] }
serde_json = "1"
time = { version = "0.3", features = ["formatting", "parsing"] }
nusb = "0.2"
serialport = "4"
fontdue = "0.9"
font-kit = "*"
harfrust = "*"
