[package]
name = "neo4j_export"
version = "0.1.0"
edition = "2021"
publish = false

[dependencies]
neo4rs = "*"
tokio = { version = "*", features = ["sync", "rt"] }
serde = { version = "*", features = ["derive"] }
serde_json = "*"
bytes = "*"
anyhow = "*"
chrono = "*"
uuid = "*"
