[package]
name = "coding_challenge"
version = "0.1.0"
edition = "2021"
publish = false

[dependencies]
itertools = "0.10"
tokio = { version = "1", features = ["full"] }
serde = { version = "1", features = ["derive"] }
serde_json = "1"
log = "0.4"
env_logger = "0.10"
futures = "0.3"
async-trait = "0.1"
dyn-clone = "1"
druid = { version = "0.8", features = ["im"] }
clap = { version = "4", features = ["derive"] }
rand = "0.8"
subprocess = "0.2"
