[package]
name = "pow"
version = "0.1.0"
edition = "2021"
publish = false

[dependencies]
glob = "=0.3.4"
shellexpand = "=3.1.2"
clap = { version = "=4.6.7", features = ["derive"] }
clap_complete = "=4.6.11"
color-eyre = "=0.6.5"
dialoguer = "=0.11.0"
futures = "=0.3.34"
indicatif = "=0.17.11"
octocrab = "=0.38.0"
serde = { version = "=1.0.229", features = ["derive"] }
serde_json = "=1.0.154"
thiserror = "=1.0.69"
tokio = { version = "=1.54.1", features = ["full"] }
toml = "=0.8.23"
tracing-subscriber = { version = "=0.3.23", features = ["env-filter"] }
