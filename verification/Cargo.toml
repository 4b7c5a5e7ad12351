[package]
name = "dccmd_rs"
version = "0.1.0"
edition = "2021"
publish = false

[dependencies]
unicode-normalization = "0.1"
chrono = "0.4"
keyring = { version = "3", features = ["linux-native"] }
dialoguer = "0.11"
secrecy = "0.10"
tokio = { version = "1", features = ["fs", "rt", "macros", "io-util", "time", "sync"] }
async-trait = "0.1"
futures-util = "0.3"
