[package]
name = "forskscope_core"
version = "0.1.0"
edition = "2021"
publish = false

[dependencies]
similar = "*"
encoding_rs = "0.8"
chardetng = "0.1"
serde = { version = "1", features = ["derive"] }
serde_json = "1"
chrono = "0.4"
