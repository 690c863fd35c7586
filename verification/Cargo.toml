[package]
name = "dashchat-node"
version = "0.1.0"
edition = "2021"
publish = false

[dependencies]
anyhow = "=1.0.104"
async-trait = "=0.1.92"
futures = "=0.3.34"
hex = "=0.4.3"
p2panda-auth = "=0.4.0"
p2panda-core = "=0.4.0"
p2panda-encryption = "=0.4.0"
p2panda-store = "=0.4.0"
p2panda-sync = { version = "=0.4.0", features = ["log-sync"] }
rand = "=0.8.8"
serde = { version = "=1.0.229", features = ["derive"] }
tokio = { version = "=1.54.1", features = ["sync", "rt", "rt-multi-thread", "macros", "time"] }
tokio-stream = "=0.1.19"
tracing = "=0.1.44"
tracing-subscriber = { version = "0.3", features = ["env-filter"] }
