[package]
name = "bottlecap_runner"
version = "0.1.0"
edition = "2021"
publish = false

[dependencies]
futures-util = "*"
hostname = "*"
keyring = "*"
reqwest = { version = "*", default-features = false }
tokio = { version = "*", features = ["rt-multi-thread", "macros", "sync"] }
tokio-tungstenite = "*"
