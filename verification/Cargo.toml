[package]
name = "pantheon"
version = "0.2.0"
edition = "2021"
publish = false

[dependencies]
chrono = "0.4"
uuid = { version = "1", features = ["v4"] }
serde = { version = "1", features = ["derive"] }
serde_yaml = "0.9"
sqlx = { version = "0.7", default-features = false, features = ["runtime-tokio", "sqlite"] }
reqwest = { version = "0.11", default-features = false, features = ["json", "rustls-tls"] }
tokio = { version = "1", features = ["full"] }
ratatui = "0.26"
crossterm = "0.27"
clap = { version = "4", features = ["derive"] }
thiserror = "1"
tracing = "0.1"
async-trait = "0.1"

[dev-dependencies]
tempfile = "3"
