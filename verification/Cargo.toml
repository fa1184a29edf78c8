[package]
name = "copilot_desktop"
version = "0.1.0"
edition = "2021"
publish = false

[dependencies]
dirs = "*"
notify = "*"
portable-pty = "*"
serde = { version = "1", features = ["derive"] }
serde_json = "1"
strip-ansi-escapes = "*"
tokio = { version = "1", features = ["rt", "rt-multi-thread", "sync", "macros"] }
uuid = { version = "1", features = ["v4"] }
which = "*"
