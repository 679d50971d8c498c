[package]
name = "github_stats_generator"
version = "0.1.0"
edition = "2021"
publish = false

[dependencies]
chrono = { version = "=0.4.45", features = ["serde"] }
env_logger = "=0.11.11"
graphql_client = "=0.16.0"
log = "=0.4.34"
reqwest = { version = "=0.13.5", features = ["json"] }
serde = { version = "=1.0.229", features = ["derive"] }
serde_json = "=1.0.154"
serde_yaml = "=0.9.34"
svg = "=0.18.0"
tokio = { version = "=1.54.1", features = ["macros", "rt-multi-thread"] }
toml = "=1.1.8"

[dev-dependencies]
sxd-document = "=0.3.2"
sxd-xpath = "=0.4.2"
