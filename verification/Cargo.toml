[package]
name = "pentairservice"
version = "0.1.0"
edition = "2021"
publish = false

[dependencies]
async-trait = "0.1"
axum = "*"
fastrand = "2"
serde = { version = "1", features = ["derive"] }
serde_json = "1"
thiserror = "*"
tokio = { version = "1", features = ["full"] }
tokio-serial = { version = "5", default-features = false }
toml = "*"
tracing = "0.1"
tracing-subscriber = { version = "0.3", features = ["env-filter"] }
