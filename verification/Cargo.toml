[package]
name = "scylla"
version = "0.1.0"
edition = "2021"
publish = false

[dependencies]
byteorder = "1"
bytes = "1"
chrono = { version = "0.4", default-features = false, features = ["std"] }
