[package]
name = "gbackup"
version = "0.1.0"
edition = "2021"
publish = false

[dependencies]
chrono = "=0.4.45"
clap = "=2.34.0"
imap = "=2.4.1"
mailparse = "0.18"
native-tls = "0.2"
rusqlite = { version = "=0.21.0", features = ["bundled"] }
serde = { version = "1", features = ["derive"] }
thiserror = "1"
threadpool = "1"
toml = "=0.5.11"
