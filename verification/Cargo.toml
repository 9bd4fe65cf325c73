[package]
name = "storelib"
version = "0.1.0"
edition = "2021"
publish = false

[dependencies]
uuid = { version = "1", features = ["v4"] }
serde = { version = "1", features = ["derive"] }
serde_json = "1"
tokio = { version = "1", features = ["macros", "rt-multi-thread", "sync"] }
warp = "0.3"
pretty_env_logger = "0.5"
