[package]
name = "kepce_api"
version = "0.1.0"
edition = "2021"
publish = false

[dependencies]
sha2 = "=0.10.9"
regex = "=1.13.1"
chrono = "=0.4.45"
resvg = "=0.45.1"
jsonwebtoken = "=9.3.1"
validator = "=0.20.0"
base64 = "=0.22.1"
bcrypt = "*"
uuid = { version = "=1.29.0", features = ["v4", "serde"] }
serde = { version = "=1.0.229", features = ["derive"] }
serde_json = "=1.0.154"
axum = "=0.7.9"
tokio = { version = "=1.54.1", features = ["full"] }
tower-http = { version = "=0.5.2", features = ["cors", "fs", "trace"] }
http = "=1.5.0"
