[package]
name = "bose_extract_deals"
version = "0.1.0"
edition = "2021"
publish = false

[dependencies]
chrono = "=0.4.45"
clap = { version = "=4.6.7", features = ["derive"] }
dirs = "=5.0.1"
lettre = "=0.11.23"
reqwest = { version = "=0.12.28", features = ["blocking", "cookies"] }
rusqlite = "=0.31.0"
serde = { version = "=1.0.229", features = ["derive"] }
serde_json = { version = "=1.0.154", features = ["arbitrary_precision"] }
tempfile = "=3.27.0"
thiserror = "=1.0.69"
