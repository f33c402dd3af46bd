[package]
name = "configure_semantic_release_assets"
version = "0.1.0"
edition = "2021"
publish = false

[dependencies]
serde_json = { version = "1", features = ["preserve_order"] }
clap = { version = "4", features = ["derive"] }
log = "0.4"
env_logger = "0.11"
