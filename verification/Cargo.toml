[package]
name = "mcp_forge"
version = "0.1.0"
edition = "2021"
publish = false

[dependencies]
ignore = "*"
indicatif = "*"
notify = "4"
petgraph = "*"
rayon = "*"
serde_json = "*"
sha2 = "*"
sqlx = { version = "*", default-features = false, features = ["sqlite", "runtime-tokio"] }
thiserror = "*"
tokio = { version = "*", features = ["rt-multi-thread"] }
tree-sitter = "*"
tree-sitter-javascript = "*"
tree-sitter-python = "*"
tree-sitter-rust = "*"
tree-sitter-typescript = "*"
walkdir = "*"
