[package]
name = "tower_otel"
version = "0.1.0"
edition = "2021"
publish = false

[dependencies]
http = "1"
http-body = "1"
opentelemetry = "*"
pin-project = "1"
tower-layer = "0.3"
tower-service = "0.3"
tower-http = { version = "0.6", default-features = false, features = ["trace"] }
tracing = "0.1"
tracing-opentelemetry = "*"
axum = { version = "*", default-features = false, features = ["matched-path"] }

[dev-dependencies]
opentelemetry_sdk = { version = "*", default-features = false, features = ["trace"] }
