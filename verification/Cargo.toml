[package]
name = "php_mago"
version = "0.1.0"
edition = "2021"
publish = false

[dependencies]
lz4_flex = "0.11"
sha2 = "0.10"
serde = { version = "1", features = ["derive"] }
serde_json = "1"
tokio = { version = "1", features = ["full"] }
tower-lsp = "0.20"
url = "2"
uuid = { version = "1", features = ["v4"] }
anyhow = "1"
zed_extension_api = "*"
