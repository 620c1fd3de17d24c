[package]
name = "hypr_plugins"
version = "0.1.0"
edition = "2021"
publish = false

[dependencies]
uuid = "1"
serde = { version = "1", features = ["derive"] }
serde_json = "1"
chrono = "0.4"
tokio = { version = "1", features = ["rt-multi-thread", "sync", "time", "macros"] }
ractor = "*"
sysinfo = "*"
dirs = "*"
hound = "3"
thiserror = "*"
bytes = "1"
futures-util = "0.3"
strum = { version = "*", features = ["derive"] }
utoipa = "*"
