[package]
name = "antifa"
version = "0.1.0"
edition = "2021"
publish = false

[dependencies]
bincode = "1.3.3"
png = "0.18"
serde = { version = "1", features = ["derive"] }
anyhow = "1"
tokio = { version = "1", features = ["full"] }
futures-util = "0.3"
