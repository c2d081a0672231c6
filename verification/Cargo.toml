[package]
name = "gridops"
version = "0.1.0"
edition = "2021"
publish = false

[dependencies]
aes-gcm = "=0.10.3"
anyhow = "=1.0.104"
axum = "=0.8.9"
base64 = "=0.22.1"
bollard = "=0.19.4"
chrono = { version = "=0.4.45", default-features = false, features = ["clock", "std"] }
futures-util = "=0.3.34"
hex = "=0.4.3"
hmac = "=0.12.1"
jsonwebtoken = { version = "=9.3.1", default-features = false, features = ["use_pem"] }
rand = "=0.10.3"
reqwest = { version = "=0.12.28", default-features = false, features = ["json", "rustls-tls", "stream"] }
secrecy = "=0.10.3"
serde = { version = "=1.0.229", features = ["derive"] }
serde_json = { version = "=1.0.154", features = ["raw_value"] }
sha2 = "=0.10.9"
sqlx = { version = "=0.8.6", default-features = false, features = ["macros", "migrate", "runtime-tokio", "sqlite"] }
subtle = "=2.6.1"
thiserror = "=2.0.21"
tokio = { version = "=1.54.1", features = ["full"] }
tower = "=0.5.3"
tower-http = { version = "=0.6.11", features = ["catch-panic", "compression-gzip", "cors", "fs", "limit", "request-id", "sensitive-headers", "set-header", "timeout", "trace"] }
tracing = "=0.1.44"
tracing-subscriber = { version = "=0.3.23", features = ["env-filter"] }
url = "=2.5.8"
uuid = { version = "=1.29.0", features = ["v4"] }
