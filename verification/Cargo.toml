[package]
name = "ghostscrub"
version = "0.1.0"
edition = "2021"
publish = false

[dependencies]
glob = "0.3"
serde = { version = "*", features = ["derive"] }
toml = "*"
clap = "*"
notify = "*"
