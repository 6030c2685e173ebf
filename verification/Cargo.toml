[package]
name = "tray-icon"
version = "0.1.0"
edition = "2021"
publish = false

[dependencies]
crossbeam-channel = "=0.5.17"
muda = { version = "=0.21.2", default-features = false, features = ["snapshot"] }
serde = { version = "=1.0.229", features = ["derive"] }
tokio = { version = "=1.54.1", features = ["rt-multi-thread"] }
zbus = { version = "=5.19.0", default-features = false, features = ["tokio"] }
