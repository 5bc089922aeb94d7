[package]
name = "meme_sandwich"
version = "0.1.0"
edition = "2021"
publish = false

[dependencies]
alloy = { version = "0.3", default-features = false, features = ["std", "providers", "provider-ipc", "rpc-types", "network", "contract", "sol-types", "eips"] }
clap = { version = "4", features = ["derive", "env"] }
eyre = "0.6"
lru = "0.12"
tokio = { version = "1", features = ["rt-multi-thread", "macros"] }
tracing = "0.1"
tracing-subscriber = "0.3"
