[package]
name = "live_annotate"
version = "0.1.0"
edition = "2021"
publish = false

[dependencies]
anyhow = "*"
color-eyre = "*"
crossterm = "*"
futures-util = "*"
ratatui = "*"
tokio = { version = "*", features = ["rt-multi-thread", "macros", "sync", "time"] }
