[package]
name = "atopile_analyzer"
version = "0.1.0"
edition = "2021"
publish = false

[dependencies]
anyhow = "=1.0.104"
chumsky = { version = "=0.10.1", features = ["pratt"] }
fancy-regex = "=0.20.0"
log = { version = "=0.4.34", features = ["std"] }
serde = { version = "=1.0.229", features = ["derive"] }
serde_json = "=1.0.154"
tokio = { version = "=1.54.1", features = ["full"] }
tower-lsp = "=0.20.0"
