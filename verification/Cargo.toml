[package]
name = "workfile_backupper"
version = "0.1.0"
edition = "2021"
publish = false

[dependencies]
chrono = "0.4"
tokio = { version = "1", features = ["rt-multi-thread", "sync", "time", "macros"] }
futures = "0.3"
notify-debouncer-full = "0.5"
serde = { version = "1", features = ["derive"] }
serde_json = "1"
ts-rs = "10"
