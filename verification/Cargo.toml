[package]
name = "riirview"
version = "0.1.0"
edition = "2021"
publish = false

[dependencies]
toml = "*"
serde = { version = "*", features = ["derive"] }
tokio = { version = "*", features = ["rt-multi-thread", "macros", "sync", "time"] }
reqwest = { version = "*", default-features = false, features = ["json"] }
futures = "*"
chrono = "*"
chrono-humanize = "*"
ratatui = "*"
open = "*"
dotenvy = "*"
directories = "*"
log = "*"
anyhow = "*"
