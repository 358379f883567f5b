[package]
name = "vito"
version = "0.1.0"
edition = "2021"
publish = false

[dependencies]
hex = "0.4"
anyhow = "1"
clap = { version = "4", features = ["derive"] }
serde = { version = "1", features = ["derive"] }
serde_json = "1"
tokio = { version = "1", features = ["macros", "rt-multi-thread"] }
ethers = { version = "2", default-features = false, features = ["abigen"] }
