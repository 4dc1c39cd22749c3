[package]
name = "rusty_server"
version = "0.1.0"
edition = "2021"
publish = false

[dependencies]
axum = "*"
chrono = "0.4"
config = "*"
curl = "*"
dotenvy = "*"
moka = { version = "*", features = ["sync"] }
regex = "1"
reqwest = "*"
scraper = "*"
serde = { version = "1", features = ["derive"] }
serde_json = "1"
tokio = { version = "1", features = ["full"] }
tower-http = { version = "*", features = ["trace"] }
tracing = "0.1"
tracing-subscriber = "0.3"
uuid = { version = "1", features = ["v4"] }
