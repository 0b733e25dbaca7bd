[package]
name = "ffxiv_reader"
version = "0.1.0"
edition = "2021"
publish = false

[dependencies]
byteorder = "1"
chrono = "0.4"
csv = "1"
flate2 = "1"
memreader = "*"
serde = { version = "1", features = ["derive"] }
serde_json = "1"
time = "0.1"
