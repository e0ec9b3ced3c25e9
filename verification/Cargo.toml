[package]
name = "ql_bridge"
version = "0.1.0"
edition = "2021"
publish = false

[dependencies]
serde_json = "1"
serde = { version = "1", features = ["derive"] }
thiserror = "1"
futures = "0.3"
tokio = { version = "1", features = ["full"] }
tokio-util = { version = "*", features = ["codec"] }
tokio-tungstenite = "*"

[dev-dependencies]
regex = "1"
