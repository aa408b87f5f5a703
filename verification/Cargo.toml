[package]
name = "seabird_discord_backend"
version = "0.1.0"
edition = "2021"
publish = false

[dependencies]
anyhow = "=1.0.104"
async-trait = "=0.1.92"
envconfig = "=0.11.1"
pretty_env_logger = "=0.5.0"
seabird = { version = "=0.4.0-alpha.4", features = ["chat-ingest-client"] }
serenity = "=0.12.5"
tokio = { version = "=1.53.2", features = ["macros", "rt-multi-thread"] }
tokio-stream = "*"
