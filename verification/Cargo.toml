[package]
name = "media_pipeline"
version = "0.1.0"
edition = "2021"
publish = false

[dependencies]
deunicode = "*"
tokio = { version = "*", features = ["sync", "rt", "rt-multi-thread", "time", "macros"] }
async-channel = "*"
futures = "*"
