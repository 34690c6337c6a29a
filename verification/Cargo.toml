[package]
name = "crunchyroll_stats"
version = "0.1.0"
edition = "2021"
publish = false

[dependencies]
actix-cors = "*"
actix-web = "*"
anyhow = "*"
chrono = { version = "*", features = ["serde"] }
crunchyroll-rs = "*"
dotenv = "*"
futures-util = "*"
hex = "*"
log = "*"
serde = { version = "*", features = ["derive"] }
sha2 = "*"
tokio = { version = "*", features = ["sync", "time", "rt", "macros"] }
tracing = "*"
tracing-actix-web = "*"
tracing-subscriber = { version = "*", features = ["env-filter"] }
validator = { version = "*", features = ["derive"] }
zeroize = { version = "*", features = ["derive"] }
