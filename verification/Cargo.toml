[package]
name = "shortener_rs"
version = "0.1.0"
edition = "2021"
publish = false

[dependencies]
axum = "0.7"
axum-prometheus = "0.7"
base64 = "0.22"
dotenv = "0.15"
metrics = "0.23"
rand = "0.8"
serde = { version = "1", features = ["derive"] }
sha3 = "0.10"
sqlx = { version = "0.8", default-features = false, features = ["runtime-tokio", "postgres"] }
tokio = { version = "1", features = ["macros", "rt-multi-thread", "net", "time"] }
tower-http = { version = "0.5", features = ["trace"] }
tracing = "0.1"
tracing-subscriber = { version = "0.3", features = ["env-filter"] }
url = "2"
