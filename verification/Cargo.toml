[package]
name = "deployment-changelog"
version = "0.1.0"
edition = "2021"
publish = false

[dependencies]
anyhow = "=1.0.104"
chrono = { version = "=0.4.45", features = ["serde"] }
clap = { version = "=4.6.7", features = ["derive", "env"] }
clap-verbosity-flag = "=2.2.3"
env_logger = "=0.10.2"
futures = "=0.3.34"
graphql_client = "=0.13.0"
log = "=0.4.34"
reqwest = { version = "=0.11.27", features = ["json"] }
serde = { version = "=1.0.229", features = ["derive"] }
serde_json = "=1.0.154"
serde_with = { version = "=2.3.3", features = ["chrono"] }
tokio = { version = "=1.54.1", features = ["rt-multi-thread", "macros"] }
