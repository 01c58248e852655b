[package]
name = "agentscope"
version = "0.1.0"
edition = "2021"
publish = false

[dependencies]
async-stream = "0.3"
base64 = "0.22"
chrono = "0.4"
futures-core = "0.3"
futures-util = "0.3"
httpdate = "1"
reqwest = { version = "0.12", default-features = false, features = ["json", "stream"] }
serde = { version = "1", features = ["derive"] }
serde_json = "1"
sha2 = "0.10"
tokio = { version = "1", features = ["sync", "time", "macros", "rt"] }
tokio-rusqlite = { version = "*", features = ["bundled"] }
url = { version = "2", features = ["serde"] }
uuid = { version = "1", features = ["v4"] }
