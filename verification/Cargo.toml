[package]
name = "auth_service"
version = "0.1.0"
edition = "2021"
publish = false

[dependencies]
chrono = "0.4"
bcrypt = "*"
google-authenticator = "*"
rand = "0.9"
urlencoding = "2"
serde = { version = "1", features = ["derive"] }
serde_json = "1"
anyhow = "1"
tokio = { version = "1", features = ["macros", "rt-multi-thread"] }
axum = "*"
redis = { version = "*", features = ["tokio-comp", "connection-manager"] }
lapin = "*"
uuid = { version = "1", features = ["v4"] }
csv = "1"
tracing = "0.1"
clap = { version = "4", features = ["derive", "env"] }
once_cell = "1"
futures = "0.3"
