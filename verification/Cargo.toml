[package]
name = "mirai"
version = "0.1.0"
edition = "2021"
publish = false

[dependencies]
auto-launch = "*"
chrono = "0.4"
clap = { version = "4", features = ["derive"] }
directories = "*"
once_cell = "1"
rand = "0.9"
refinery = { version = "*", features = ["rusqlite"] }
rusqlite = { version = "*", features = ["bundled", "chrono"] }
sea-query = { version = "*", features = ["derive", "backend-sqlite", "with-chrono"] }
sea-query-rusqlite = { version = "*", features = ["with-chrono"] }
serde = { version = "1", features = ["derive"] }
thiserror = "2"
toml = "*"
tracing = "0.1"
tracing-subscriber = "0.3"
winapi = { version = "0.3", features = ["winuser"] }
winreg = "*"
