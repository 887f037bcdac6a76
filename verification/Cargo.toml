[package]
name = "wcgate"
version = "0.1.0"
edition = "2021"
publish = false

[dependencies]
base64 = "0.13"
serde = { version = "1", features = ["derive"] }
serde_json = "1"
warp = "0.3"
tokio = { version = "1", features = ["rt-multi-thread", "macros", "fs", "time"] }
uuid = { version = "1", features = ["v4"] }
reqwest = { version = "0.11", default-features = false }
