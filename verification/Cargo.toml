[package]
name = "server_seeker"
version = "0.1.0"
edition = "2021"
publish = false

[dependencies]
bytes = "1"
flate2 = "1"
uuid = { version = "1", features = ["serde"] }
url = { version = "2", features = ["serde"] }
ipnetwork = { version = "0.21", features = ["serde"] }
cron = "0.15"
tokio = { version = "1", features = ["full"] }
tokio-util = "0.7"
futures = "0.3"
serde = { version = "1", features = ["derive"] }
serde_json = "1"
toml = "0.8"
chrono = { version = "0.4", features = ["serde"] }
log = "0.4"
env_logger = "0.11"
itertools = "0.14"
thiserror = "2"
axum = "0.8"
sqlx = { version = "0.8", default-features = false, features = ["runtime-tokio", "postgres", "uuid", "chrono", "ipnetwork", "migrate"] }
reqwest = { version = "0.12", default-features = false, features = ["json", "rustls-tls"] }
hickory-resolver = "0.25"
utoipa = { version = "5", features = ["axum_extras"] }
