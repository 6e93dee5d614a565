[package]
name = "qaul"
version = "0.1.0"
edition = "2021"
publish = false

[dependencies]
byteorder = "1"
bincode = "1"
serde = { version = "1", features = ["derive"] }
async-std = "1"
tracing = "0.1"
