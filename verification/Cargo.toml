[package]
name = "twitter_api"
version = "0.1.0"
edition = "2021"
publish = false

[dependencies]
oauth-client = "*"

[dev-dependencies]
serde_json = "*"
