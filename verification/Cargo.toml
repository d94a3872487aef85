[package]
name = "ddnet_core"
version = "0.1.0"
edition = "2021"
publish = false

[dependencies]
serde = { version = "=1.0.229", features = ["derive"] }
serde_json = "1"
thiserror = "=1.0.69"
parking_lot = "=0.12.5"
chrono = { version = "=0.4.45", default-features = false, features = ["serde", "clock"] }
