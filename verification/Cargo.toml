[package]
name = "maurobot"
version = "0.1.0"
edition = "2021"
publish = false

[dependencies]
rand = "0.8"
serenity = { version = "0.10", features = ["collector"] }
tokio = { version = "1", features = ["sync", "time", "macros", "rt-multi-thread"] }
