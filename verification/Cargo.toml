[package]
name = "openpeer"
version = "0.1.0"
edition = "2021"
publish = false

[dependencies]
dirs = "5"
serde = { version = "1", features = ["derive"] }
toml = "0.8"
thiserror = "1"
clap = { version = "4", features = ["derive"] }
tracing = "0.1"
tracing-subscriber = { version = "0.3", features = ["env-filter", "fmt"] }
