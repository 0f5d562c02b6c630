[package]
name = "bill_of_zero"
version = "0.1.0"
edition = "2021"
publish = false

[dependencies]
sha2 = "0.10"
ed25519-dalek = "2"
serde = { version = "1", features = ["derive"] }
serde_json = "1"
anyhow = "1"
hex = "0.4"
ratatui = "0.29"
crossterm = "0.28"
tracing-subscriber = { version = "0.3", features = ["env-filter"] }
