[package]
name = "codex_session_manager"
version = "0.1.0"
edition = "2021"
publish = false

[dependencies]
anyhow = "1"
chrono = "0.4"
dirs-next = "2"
serde_json = "1"
walkdir = "2"
