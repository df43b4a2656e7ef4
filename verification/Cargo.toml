[package]
name = "devnotes"
version = "0.1.0"
edition = "2021"
publish = false

[dependencies]
anyhow = "=1.0.104"
chrono = "=0.4.45"
clap = { version = "=4.6.7", features = ["derive"] }
crossterm = "=0.28.1"
ratatui = "=0.28.1"
serde = { version = "=1.0.229", features = ["derive"] }
sqlx = { version = "=0.9.0", features = ["sqlite", "runtime-tokio", "chrono"] }
tokio = { version = "=1.53.2", features = ["macros", "rt-multi-thread"] }
toml = "=1.1.7"
tui-textarea = "=0.6.1"
uuid = { version = "=1.27.0", features = ["v4"] }
