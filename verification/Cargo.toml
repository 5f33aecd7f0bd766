[package]
name = "collector"
version = "0.1.0"
edition = "2021"
publish = false

[dependencies]
analyzeme = "*"
anyhow = "1"
clap = { version = "4", features = ["derive"] }
hashbrown = "*"
jobserver = "*"
log = "*"
serde = { version = "1", features = ["derive"] }
serde_json = "1"
tempfile = "3"
thiserror = "*"
tokio = { version = "1", features = ["process", "rt", "rt-multi-thread", "time"] }
