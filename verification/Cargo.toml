[package]
name = "fs_agent"
version = "0.1.0"
edition = "2021"
publish = false

[dependencies]
ratatui = "=0.30.2"
thiserror = "=2.0.21"
chrono = "=0.4.45"
serde_json = "=1.0.154"
tree-sitter-highlight = "*"
tree-sitter-rust = "*"
