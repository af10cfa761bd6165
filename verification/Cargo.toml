[package]
name = "remote_fs"
version = "0.1.0"
edition = "2021"
publish = false

[dependencies]
axum = "0.7"
env_logger = "0.11"
fuser = { version = "0.15", default-features = false }
libc = "0.2"
log = "0.4"
reqwest = { version = "0.12", default-features = false, features = ["json"] }
serde = { version = "1", features = ["derive"] }
tokio = { version = "1", features = ["rt-multi-thread", "macros", "net"] }
