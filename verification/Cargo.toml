[package]
name = "gitai"
version = "0.1.0"
edition = "2021"
publish = false

[dependencies]
ai = "*"
anyhow = "*"
clap = { version = "*", features = ["derive"] }
dirs = "*"
rusqlite = { version = "*", features = ["bundled"] }
serde = { version = "*", features = ["derive"] }
tokio = { version = "*", features = ["rt-multi-thread", "macros", "time", "sync"] }
toml = "*"
