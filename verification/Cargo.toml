[package]
name = "qa_service"
version = "0.1.0"
edition = "2021"
publish = false

[dependencies]
log = "=0.4.34"
log4rs = "=1.4.0"
serde = { version = "=1.0.229", features = ["derive"] }
serde_json = "=1.0.151"
tokio = { version = "=1.53.2", features = ["rt-multi-thread", "macros", "sync"] }
uuid = { version = "=1.27.0", features = ["v4"] }
warp = { version = "=0.4.3", features = ["server"] }
