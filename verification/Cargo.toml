[package]
name = "autobooru"
version = "0.1.0"
edition = "2021"
publish = false

[dependencies]
anyhow = "1"
chrono = { version = "0.4", features = ["serde"] }
convert_case = "0.6"
dotenv = "0.15"
env_logger = "0.10"
futures = "0.3"
log = "0.4"
poise = "0.4"
reqwest = { version = "0.11", default-features = false, features = ["json", "gzip", "rustls-tls"] }
serde = { version = "1", features = ["derive"] }
serde_json = "1"
sqlx = { version = "0.6", default-features = false, features = ["postgres", "runtime-tokio-rustls", "chrono"] }
thiserror = "1"
tokio = { version = "1", features = ["full"] }
