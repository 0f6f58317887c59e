[package]
name = "codev"
version = "0.1.0"
edition = "2021"
publish = false

[dependencies]
anyhow = "1"
async-stream = "0.3"
axum = "=0.8.9"
futures = "0.3"
http-body-util = "0.1"
minijinja = "=2.24.0"
oauth2 = "5"
rmcp = { version = "1.8", features = ["auth", "client"] }
serde = { version = "1", features = ["derive"] }
serde_json = "=1.0.154"
tokio = { version = "=1.54.1", features = ["macros", "net", "rt-multi-thread", "sync", "time"] }
tokio-util = { version = "0.7", features = ["compat"] }
tracing = "0.1"
utoipa = "=5.5.0"
uuid = { version = "=1.29.0", features = ["v4"] }
webbrowser = "1"
