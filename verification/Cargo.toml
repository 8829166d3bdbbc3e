[package]
name = "validator_scan"
version = "0.1.0"
edition = "2021"
publish = false

[dependencies]
anyhow = "*"
futures = "*"
reqwest = { version = "*", default-features = false }
scraper = "*"
tokio = { version = "*", features = ["macros", "rt-multi-thread", "time"] }
