[package]
name = "mycel"
version = "0.1.0"
edition = "2021"
publish = false

[dependencies]
blake3 = "1"
tree-sitter = "0.25"
tree-sitter-rust = "0.24"
tree-sitter-typescript = "0.23"
streaming-iterator = "0.1"
time = "0.3"
anyhow = "1"
async-trait = "0.1"
camino = "1"
clap = { version = "4", features = ["derive"] }
dirs = "6"
falkordb = { version = "*", features = ["tokio"] }
futures = "0.3"
notify = "8"
reqwest = { version = "0.12", default-features = false, features = ["json"] }
serde = { version = "1", features = ["derive"] }
serde_json = "1"
thiserror = "2"
tokio = { version = "1", features = ["full"] }
toml = "0.8"
tracing = "0.1"
tracing-appender = "0.2"
tracing-subscriber = { version = "0.3", features = ["env-filter"] }
walkdir = "2"
