[package]
name = "warp_minio"
version = "0.1.0"
edition = "2021"
publish = false

[dependencies]
bytes = "1"
env_logger = "0.10"
log = "0.4"
mime_guess = "2"
minio = "0.1"
r2d2 = "0.8"
r2d2_redis = "0.14"
rand = "0.8"
reqwest = { version = "0.11", features = ["stream"] }
serde = { version = "1", features = ["derive"] }
serde_json = "1"
serde_yaml = "0.9"
tokio = { version = "1", features = ["macros", "rt-multi-thread", "sync", "time"] }
warp = "0.3"
