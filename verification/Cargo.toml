[package]
name = "research_mcp"
version = "0.8.4"
edition = "2021"
publish = false

[dependencies]
anyhow = "1"
base64 = "0.22"
chrono = "0.4"
clap = { version = "4", features = ["derive"] }
quick-xml = "0.37"
regex = "1"
reqwest = { version = "0.12", default-features = false, features = ["charset", "cookies", "json", "rustls-tls"] }
rmcp = { version = "*", features = ["server", "macros", "transport-io", "schemars"] }
rusqlite = { version = "*", features = ["bundled"] }
serde = { version = "1", features = ["derive"] }
serde_json = "1"
tokio = { version = "1", features = ["macros", "rt-multi-thread", "time"] }
toml = "0.8"
uuid = { version = "1", features = ["v4"] }
