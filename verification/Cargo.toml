[package]
name = "request_pipeline"
version = "0.1.0"
edition = "2021"
publish = false

[dependencies]
anyhow = "=1.0.104"
axum = "=0.7.9"
form_urlencoded = "=1.2.2"
http-body-util = "=0.1.5"
percent-encoding = "=2.3.2"
serde = { version = "=1.0.229", features = ["derive"] }
serde_json = "=1.0.154"
tokio = { version = "=1.54.1", features = ["macros", "net", "rt"] }
tower-http = { version = "=0.5.2", features = ["cors"] }
tracing = "=0.1.44"
tracing-subscriber = "=0.3.23"
utoipa = "=4.2.3"
utoipa-swagger-ui = { version = "=7.1.0", features = ["axum", "vendored"] }
