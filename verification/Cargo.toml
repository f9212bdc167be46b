[package]
name = "liblspc"
version = "0.1.0"
edition = "2021"
publish = false

[dependencies]
serde_json = "1"
serde = { version = "1", features = ["derive"] }
anyhow = "1"
log = "0.4"
parking_lot = "0.12"
tokio = { version = "1", features = ["full"] }
lsp-types = "*"
simple_logger = "*"
