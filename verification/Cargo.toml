[package]
name = "omnia"
version = "0.1.0"
edition = "2021"
publish = false

[dependencies]
anyhow = "1"
http = "1"
chrono = { version = "0.4", default-features = false, features = ["std"] }
serde = { version = "1", features = ["derive"] }
serde_json = "1"
base64ct = { version = "1", features = ["alloc"] }
thiserror = "2"
clap = { version = "4", features = ["derive"] }
futures = "0.3"
parking_lot = "0.12"
moka = { version = "0.12", default-features = false, features = ["sync"] }
bytes = "1"
