[package]
name = "srpc_client"
version = "0.1.0"
edition = "2021"
publish = false

[dependencies]
serde_json = "1"
tokio = { version = "1", features = ["net", "io-util", "sync", "time", "rt", "rt-multi-thread"] }
tokio-util = { version = "0.7", features = ["codec"] }
openssl = "0.10"
tokio-openssl = "0.6"
async-trait = "0.1"
tracing = "0.1"
