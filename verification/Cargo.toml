[package]
name = "m4b_merge"
version = "0.1.0"
edition = "2021"
publish = false

[dependencies]
clap = { version = "4", features = ["derive"] }
httpdate = "1"
mp4ameta = "*"
natord = "1"
regex = "1"
reqwest = { version = "0.12", features = ["json"] }
sanitize-filename = "*"
serde = { version = "1", features = ["derive"] }
serde_json = "1"
tempfile = "3"
thiserror = "2"
tokio = { version = "1", features = ["full"] }
tokio-retry = "*"
tracing = "0.1"
tracing-subscriber = { version = "0.3", features = ["env-filter"] }
walkdir = "2"
