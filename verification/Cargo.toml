[package]
name = "tangle_tunes"
version = "0.1.0"
edition = "2021"
publish = false

[dependencies]
num-integer = "*"
ethers-core = "*"
tokio = { version = "*", features = ["full"] }
tokio-util = { version = "*", features = ["codec"] }
bytes = "*"
futures = "*"
clap = { version = "*", features = ["derive"] }
serde = { version = "*", features = ["derive"] }
toml = "*"
eyre = "*"
