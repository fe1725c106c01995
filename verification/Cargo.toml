[package]
name = "symsight_core"
version = "0.2.3"
edition = "2021"
publish = false

[dependencies]
regex = "1"
chrono = "0.4"
indexmap = "2"
serde = { version = "1", features = ["derive"] }
serde_json = "1"
serde_yml = "*"
toml = "*"
dotenvy = "0.15"
dirs = "*"
clap = { version = "4", features = ["derive"] }
thiserror = "*"
reqwest = { version = "0.12", default-features = false, features = ["blocking", "json", "rustls-tls"] }
