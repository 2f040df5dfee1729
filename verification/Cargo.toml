[package]
name = "wishlist"
version = "0.1.0"
edition = "2021"
publish = false

[dependencies]
serde_json = "=1.0.151"
scraper = "=0.27.0"
chrono = "=0.4.45"
serde = { version = "=1.0.229", features = ["derive"] }
toml = "=1.1.6"
log = "=0.4.34"
stderrlog = "=0.6.0"
clap = "=4.6.7"
rusqlite = { version = "=0.40.2", features = ["bundled"] }
reqwest = { version = "=0.13.5", default-features = false }
tokio = { version = "=1.53.2", features = ["rt", "process", "io-util"] }
warp = { version = "=0.4.3", features = ["server"] }
