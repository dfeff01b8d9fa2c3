[package]
name = "dashboard"
version = "0.1.0"
edition = "2021"
publish = false

[dependencies]
cargo_metadata = "*"
chrono = "*"
color-eyre = "*"
crossterm = { version = "*", features = ["event-stream"] }
nucleo = "*"
portable-pty = "*"
ratatui = "*"
ratatui-cheese = "*"
serde = { version = "*", features = ["derive"] }
serde_json = "*"
tokio = { version = "*", features = ["rt-multi-thread", "macros", "sync", "time"] }
toml = "*"
tui-input = "*"
tui-term = "*"
unicode-width = "*"
vt100 = "*"
futures = "*"
