[package]
name = "omd"
version = "0.1.0"
edition = "2021"
publish = false

[dependencies]
glob-match = "0.2"
serde = { version = "1", features = ["derive"] }
serde_json = "1"
chrono = "0.4"
uuid = { version = "1", features = ["v4"] }
tokio = { version = "1", features = ["sync", "rt", "macros"] }
tracing = "0.1"
libc = "0.2"
async-trait = "0.1"

[dev-dependencies]
tempfile = "3"
