[package]
name = "public_ip"
version = "0.1.0"
edition = "2021"
publish = false

[dependencies]
hickory-proto = "0.24"
hickory-client = "0.24"
url = "2"
serde_json = "1"
reqwest = { version = "0.12", default-features = false }
tokio = { version = "1", features = ["net", "rt", "rt-multi-thread", "macros", "time"] }
futures-util = "0.3"
