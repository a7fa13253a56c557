[package]
name = "typocode"
version = "0.1.0"
edition = "2021"
publish = false

[dependencies]
clap = { version = "4", features = ["derive"] }
color-eyre = "0.6"
crossterm = "0.28"
ratatui = "0.29"
tracing-appender = "0.2"
tracing-subscriber = { version = "0.3", features = ["env-filter"] }
