[package]
name = "midl_parser"
version = "0.1.0"
edition = "2021"
publish = false

[dependencies]
sha2 = "0.9"
base64 = "0.13"
Inflector = { version = "0.11", default-features = false }
serde = { version = "1", features = ["derive"] }
serde_json = "1"
clap = { version = "3", features = ["derive"] }
anyhow = "1"
handlebars = "4"
thiserror = "1"
chrono = "0.4"
toml = "0.5"
