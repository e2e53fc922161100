[package]
name = "zoid"
version = "0.1.0"
edition = "2021"
publish = false

[dependencies]
ulid = "=3.0.0"
base64 = "=0.23.1"
serde = { version = "=1.0.229", features = ["derive"] }
serde_json = "=1.0.154"
anyhow = "=1.0.104"
chrono = "=0.4.45"
tracing = "=0.1.44"
tracing-subscriber = { version = "=0.3.23", features = ["env-filter", "json"] }
nix = { version = "=0.31.3", features = ["signal"] }
git2 = { version = "=0.21.0", default-features = false }
