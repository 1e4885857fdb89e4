[package]
name = "soagents"
version = "0.1.0"
edition = "2021"
publish = false

[dependencies]
serde_json = "1"
serde = { version = "1", features = ["derive"] }
log = "0.4"
libc = "0.2"
dirs = "*"
which = "*"
futures-util = "0.3"
tokio = { version = "1", features = ["sync", "time", "rt", "macros"] }
reqwest = { version = "0.12", features = ["blocking", "json", "stream"] }
