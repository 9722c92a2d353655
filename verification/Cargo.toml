[package]
name = "flowchart_mcp"
version = "0.1.0"
edition = "2021"
publish = false

[dependencies]
uuid = { version = "1", features = ["v4"] }
serde = { version = "1", features = ["derive"] }
serde_json = "1"
tokio = { version = "1", features = ["rt-multi-thread", "macros", "io-std", "sync"] }
rmcp = { version = "*", features = ["server", "transport-io", "macros"] }
anyhow = "1"
