[package]
name = "mage_rs"
version = "0.1.0"
edition = "2021"
publish = false

[dependencies]
tree-sitter = "=0.27.1"
tree-sitter-mage = "=0.1.6"
iced-x86 = { version = "=1.21.0", features = ["code_asm"] }
mmap-rs = "=0.7.0"
serde = { version = "=1.0.229", features = ["derive"] }
serde_json = "=1.0.154"
clap = { version = "=4.6.7", features = ["derive"] }
tokio = { version = "=1.54.1", features = ["full"] }
tower-lsp-server = "=0.23.0"
