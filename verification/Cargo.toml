[package]
name = "model_gateway"
version = "0.1.0"
edition = "2021"
publish = false

[dependencies]
serde_json = "1"
serde = { version = "1", features = ["derive"] }
toml = "0.8"
actix-web = "4"
reqwest = { version = "0.12", features = ["json"] }
env_logger = "0.11"
futures-util = "0.3"
