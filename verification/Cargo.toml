[package]
name = "apcore"
version = "0.1.0"
edition = "2021"
publish = false

[dependencies]
async-stream = "0.3"
async-trait = "0.1"
chrono = "0.4"
futures-core = "0.3"
futures-util = "0.3"
glob = "0.3"
parking_lot = "0.12"
regex = "1"
reqwest = { version = "0.12", default-features = false, features = ["json"] }
serde = { version = "1", features = ["derive"] }
serde_json = "1"
serde_yaml_ng = "0.10"
sha2 = "0.10"
thiserror = "2"
tokio = { version = "1", features = ["rt", "rt-multi-thread", "macros", "sync", "time", "net", "io-util", "fs"] }
tracing = "0.1"
uuid = { version = "1", features = ["v4"] }
