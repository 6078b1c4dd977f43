[package]
name = "joke_bot"
version = "0.1.0"
edition = "2021"
publish = false

[dependencies]
compound_duration = "*"
nostr-bot = "*"
reqwest = "0.11"
tokio = { version = "1", features = ["macros", "rt-multi-thread", "sync"] }
