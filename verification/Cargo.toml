[package]
name = "forge"
version = "0.1.0"
edition = "2021"
publish = false

[dependencies]
serde = { version = "*", features = ["derive"] }
serde_json = "*"
tokio = { version = "*", features = ["rt-multi-thread", "sync", "time"] }
tokio-postgres = { version = "*", features = ["with-chrono-0_4", "with-uuid-1", "with-serde_json-1"] }
chrono = "*"
uuid = "*"
thiserror = "*"
toml = "*"
