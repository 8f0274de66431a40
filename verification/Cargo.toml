[package]
name = "playground_bot"
version = "0.1.0"
edition = "2021"
publish = false

[dependencies]
async-std = "1"
futures = "0.3"
hyper = "0.13"
hyper-rustls = "0.20"
signal-hook = "0.1"
telegram-bot = "0.8"
tokio = { version = "1", features = ["macros", "rt-multi-thread"] }
