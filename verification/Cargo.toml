[package]
name = "ruststream"
version = "0.1.0"
edition = "2021"
publish = false

[dependencies]
uuid = { version = "*", features = ["v4"] }
hmac = "*"
sha2 = "*"
hex = "*"
bcrypt = "*"
chrono = "*"
axum = "*"
tokio = { version = "*", features = ["full"] }
serde = { version = "*", features = ["derive"] }
serde_json = "*"
anyhow = "*"
thiserror = "*"
reqwest = { version = "*", default-features = false, features = ["json", "rustls-tls"] }
tower-http = { version = "*", features = ["fs"] }
http = "*"
dotenvy = "*"
tracing = "*"
tracing-subscriber = { version = "*", features = ["env-filter"] }
crossterm = "*"
ratatui = "*"
