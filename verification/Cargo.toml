[package]
name = "php-ls"
version = "0.1.0"
edition = "2021"
publish = false

[dependencies]
tree-sitter = "=0.20.10"
tree-sitter-php = "=0.22.0"
lsp-types = "=0.95.1"
lsp-server = "=0.7.9"
serde = { version = "=1.0.229", features = ["derive"] }
serde_json = "=1.0.154"
sqlx = { version = "=0.7.4", default-features = false, features = ["sqlite", "runtime-tokio"] }
tokio = { version = "=1.54.1", features = ["rt-multi-thread"] }
anyhow = "=1.0.104"
log = "=0.4.34"
walkdir = "=2.5.0"
clap = { version = "=4.6.7", features = ["derive"] }
crossbeam-channel = "=0.5.17"
dotenv = "=0.15.0"
env_logger = "=0.10.2"
log4rs = "=1.4.0"
rayon = "=1.12.0"
