[package]
name = "qualifying"
version = "0.1.0"
edition = "2021"
publish = false

[dependencies]
google-sheets4 = "=5.0.5"
serde_json = "1"
serenity = "=0.11.7"
tokio = { version = "1", features = ["rt-multi-thread", "macros"] }
