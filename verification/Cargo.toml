[package]
name = "aiform"
version = "0.1.0"
edition = "2021"
publish = false

[dependencies]
async-openai = "0.19"
proc-macro2 = "1"
quote = "1"
serde = { version = "1", features = ["derive"] }
serde_json = "1"
syn = { version = "2", features = ["full"] }
tokio = { version = "1", features = ["sync"] }
