[package]
name = "libcrucible"
version = "0.1.0"
edition = "2021"
publish = false

[dependencies]
uuid = { version = "1", features = ["v4", "serde"] }
which = "*"
regex = "1"
serde = { version = "1", features = ["derive"] }
serde_json = "1"
toml = "*"
anyhow = "1"
clap = { version = "4", features = ["derive"] }
tokio = { version = "1", features = ["rt-multi-thread", "macros", "sync", "time", "signal"] }
git2 = { version = "*", default-features = false }
glob = "*"
walkdir = "2"
chrono = "*"
tree-sitter = "*"
tree-sitter-rust = "*"
crossterm = "*"
ratatui = "*"
tempfile = "3"
futures = "*"
async-trait = "*"
