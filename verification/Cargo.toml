[package]
name = "code_context_graph"
version = "0.1.0"
edition = "2021"
publish = false

[dependencies]
axum = "*"
blake3 = "1"
chrono = { version = "0.4", features = ["serde"] }
clap = { version = "4", features = ["derive"] }
dirs = "*"
redis = "*"
serde = { version = "1", features = ["derive"] }
serde_json = "1"
thiserror = "*"
tokio = { version = "1", features = ["macros", "rt-multi-thread", "net", "signal"] }
toml = "*"
tracing = "0.1"
tracing-subscriber = "0.3"
tree-sitter = "*"
tree-sitter-java = "*"
tree-sitter-javascript = "*"
tree-sitter-kotlin-ng = "*"
tree-sitter-python = "*"
uuid = { version = "1", features = ["v4", "serde"] }
walkdir = "2"
