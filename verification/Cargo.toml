[package]
name = "app_pro"
version = "0.1.0"
edition = "2021"
publish = false

[dependencies]
rusqlite = { version = "*", features = ["bundled"] }
uuid = { version = "*", features = ["v4"] }
chrono = "*"
dirs = "*"
serde = { version = "*", features = ["derive"] }
serde_json = "*"
log = "*"
env_logger = "*"
libc = "*"
gtk4 = "*"
