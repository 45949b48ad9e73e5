[package]
name = "vertretung"
version = "0.1.0"
edition = "2021"
publish = false

[dependencies]
chrono = { version = "=0.4.45", features = ["serde"] }
scraper = "=0.29.0"
lopdf = "=0.46.0"
itertools = "=0.10.5"
prettytable-rs = { version = "=0.10.0", default-features = false }
uuid = { version = "=1.29.0", features = ["v4", "serde"] }
serde = { version = "=1.0.229", features = ["derive"] }
serde_json = "=1.0.154"
actix-web = "=4.18.1"
actix-cors = "=0.6.5"
reqwest = { version = "=0.11.27", default-features = false, features = ["json", "rustls-tls"] }
sqlx = { version = "=0.7.4", default-features = false, features = ["postgres", "runtime-tokio", "tls-rustls"] }
tokio = { version = "=1.54.1", features = ["rt-multi-thread", "macros", "time", "signal"] }
tokio-util = "=0.7.20"
serenity = { version = "=0.11.7", default-features = false, features = ["builder", "cache", "client", "framework", "gateway", "http", "model", "standard_framework", "utils", "rustls_backend"] }
dotenv = "=0.15.0"
env_logger = "=0.10.2"
log = "=0.4.34"
tracing = "=0.1.44"
tracing-subscriber = "=0.3.23"
futures = "=0.3.34"
