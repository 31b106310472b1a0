[package]
name = "watch_history"
version = "0.1.0"
edition = "2021"
publish = false

[dependencies]
chrono = "0.4"
crunchyroll-rs = "*"
dotenvy = "0.15"
serde_json = "1"
tokio = { version = "1", features = ["macros", "rt-multi-thread"] }
