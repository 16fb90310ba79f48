[package]
name = "papra_vector_search"
version = "0.1.0"
edition = "2021"
publish = false

[dependencies]
hmac = "0.12"
sha2 = "0.10"
base64 = "0.22"
subtle = "2"
unicode-normalization = "0.1"
secrecy = "0.10"
url = "2"
jsonwebtoken = "9"
serde = { version = "1", features = ["derive"] }
serde_json = "1"
anyhow = "1"
axum = "0.8"
tokio = { version = "1", features = ["full"] }
reqwest = { version = "0.12", default-features = false, features = ["json", "rustls-tls"] }
rusqlite = { version = "0.32", features = ["bundled", "load_extension"] }
chrono = "0.4"
uuid = { version = "1", features = ["v4"] }
dotenvy = "0.15"
tracing = "0.1"
tracing-subscriber = { version = "0.3", features = ["env-filter", "json"] }
opentelemetry = { version = "0.27", features = ["metrics"] }
opentelemetry_sdk = { version = "0.27", features = ["metrics"] }
prometheus = { version = "0.13", default-features = false }
tower-http = { version = "0.6", features = ["fs"] }
fastembed = { version = "4", default-features = false }
