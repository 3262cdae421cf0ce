[package]
name = "ytermusic"
version = "0.1.0"
edition = "2021"
publish = false

[dependencies]
crossterm = "0.25"
flume = "0.10"
mimalloc = { version = "0.1", default-features = false }
once_cell = "1"
serde = { version = "1", features = ["derive"] }
serde_json = { version = "1", features = ["preserve_order"] }
tokio = { version = "1", features = ["rt-multi-thread", "macros", "time"] }
tui = "0.19"
urlencoding = "2"
