[package]
name = "tui-journal"
version = "0.1.0"
edition = "2021"
publish = false

[dependencies]
anyhow = "1"
chrono = { version = "0.4", features = ["serde"] }
directories = "5"
log = "0.4"
scopeguard = "1"
serde = { version = "1", features = ["derive"] }
serde_json = "1"
sqlx = { version = "0.8", default-features = false, features = ["sqlite", "runtime-tokio", "migrate"] }
thiserror = "1"
tokio = { version = "1", features = ["fs", "rt", "macros", "process"] }
