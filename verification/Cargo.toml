[package]
name = "process_guard"
version = "0.1.0"
edition = "2021"

[dependencies]
serde = { version = "1", features = ["derive"] }
sysinfo = "0.30"
toml = "0.8"
