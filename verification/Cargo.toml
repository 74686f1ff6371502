[package]
name = "package_version_server"
version = "0.1.0"
edition = "2021"
publish = false

[dependencies]
chrono = "0.4"
chrono-humanize = "0.2"
reqwest = { version = "0.12", default-features = false, features = ["json", "rustls-tls"] }
semver_rs = "0.2"
serde_json = "1"
tokio = { version = "1", features = ["io-std", "macros", "rt-multi-thread", "sync"] }
tower-lsp = "0.20"
tree-sitter = "0.22"
tree-sitter-json = "0.21"
urlencoding = "2"
