[package]
name = "flappy"
version = "0.1.0"
edition = "2021"
publish = false

[dependencies]
rand = "0.8"
ratatui = "0.29"
crossterm = "0.28"
tokio = { version = "1", features = ["rt-multi-thread", "macros", "sync", "time"] }
serde = { version = "1", features = ["derive"] }
serde_yaml = "0.9"
strum = { version = "0.26", features = ["derive"] }
color-eyre = "0.6"
log = "0.4"
derive_deref = "1"
