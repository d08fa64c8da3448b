[package]
name = "llm_linter"
version = "0.1.0"
edition = "2021"
publish = false

[dependencies]
anyhow = "1"
env_logger = "0.11"
getopts = "0.2"
globset = "0.4"
log = "0.4"
octocrab = "0.38"
patch = "0.7"
reqwest = { version = "0.12", features = ["json"] }
secrecy = "0.8"
serde = { version = "1", features = ["derive"] }
serde_json = "1"
tokio = { version = "1", features = ["macros", "rt-multi-thread", "time"] }

[dev-dependencies]
indoc = "2"
regex = "1"
