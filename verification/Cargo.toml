[package]
name = "ynab_tui"
version = "0.1.0"
edition = "2021"
publish = false

[dependencies]
chrono = { version = "0.4", features = ["serde"] }
crossterm = "0.25"
dotenvy = "0.15"
reqwest = { version = "0.11", features = ["blocking"] }
serde = { version = "1", features = ["derive"] }
serde_json = "1"
sqlite = "0.30"
tui = "0.19"
uuid = { version = "1", features = ["serde"] }
