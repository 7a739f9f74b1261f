[package]
name = "claw_core"
version = "0.1.0"
edition = "2021"
publish = false

[dependencies]
regex = "1"
serde = { version = "1", features = ["derive"] }
serde_json = "1"
uuid = { version = "1", features = ["v4"] }
thiserror = "1"
toml = "0.8"
dirs = "5"
clap = "4"
tracing = "0.1"
tokio = { version = "1", features = ["full"] }
futures = "0.3"
axum = { version = "0.7", features = ["ws"] }
tower-http = { version = "0.5", features = ["cors"] }
reqwest = { version = "0.12", default-features = false, features = ["json"] }
rusqlite = { version = "0.31", features = ["bundled"] }
ratatui = "0.28"
textwrap = "0.16"

[dev-dependencies]
