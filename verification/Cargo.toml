[package]
name = "bzlui"
version = "0.1.0"
edition = "2021"
publish = false

[dependencies]
crossterm = { version = "0.28", features = ["event-stream"] }
ratatui = "0.29"
tokio = { version = "1", features = ["io-util", "macros", "process", "rt", "sync"] }
tokio-stream = "0.1"
trie-rs = "0.4"
