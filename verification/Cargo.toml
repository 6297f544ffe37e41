[package]
name = "subspace_explorer"
version = "0.1.0"
edition = "2021"
publish = false

[dependencies]
anyhow = "*"
chrono = { version = "*", default-features = false, features = ["clock"] }
crossterm = "*"
log = "*"
pretty_env_logger = "*"
rand = "*"
ratatui = "*"
serde = { version = "*", features = ["derive"] }
serde_json = "*"
thiserror = "*"
tokio = { version = "*", features = ["macros", "rt-multi-thread", "sync", "time"] }
