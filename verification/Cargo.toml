[package]
name = "cosmic_chat"
version = "0.1.0"
edition = "2021"
publish = false

[dependencies]
irc = { version = "1", default-features = false, features = ["ctcp", "channel-lists"] }
tokio = { version = "1", features = ["rt-multi-thread", "sync"] }
futures = "0.3"
serde = { version = "1", features = ["derive"] }
toml = "*"
log = "0.4"
env_logger = "*"
