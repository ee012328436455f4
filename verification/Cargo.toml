[package]
name = "nongoose"
version = "0.1.0"
edition = "2021"
publish = false

[dependencies]
async-trait = "*"
mongodb = { version = "*", features = ["sync"] }
tokio = { version = "*", features = ["rt", "rt-multi-thread"] }
