[package]
name = "pgd"
version = "0.1.0"
edition = "2021"
publish = false

[dependencies]
bollard = "*"
clap = { version = "*", features = ["derive"] }
clap-verbosity-flag = { version = "*", features = ["tracing"] }
cliclack = "*"
colored = "*"
comfy-table = "*"
futures = "*"
indicatif = "*"
miette = { version = "*", features = ["fancy"] }
rand = "*"
serde = { version = "*", features = ["derive"] }
serde_json = "*"
serde_with = "*"
thiserror = "*"
tokio = { version = "*", features = ["full"] }
toml = "*"
tracing = "*"
tracing-subscriber = "*"
