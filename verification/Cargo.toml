[package]
name = "rust-mcp"
version = "0.1.0"
edition = "2021"
publish = false

[dependencies]
semver = "=1.0.28"
serde = { version = "=1.0.229", features = ["derive"] }
serde_json = "=1.0.154"
toml = "=0.8.23"
sha2 = "=0.10.9"
base64 = "=0.22.1"
metrics = "=0.24.6"
rustdoc-types = "=0.61.0"
tokio = { version = "=1.54.1", features = ["sync", "time", "rt", "macros"] }
zstd = "=0.13.4"
syn = { version = "2", features = ["full"] }
quote = "1"
