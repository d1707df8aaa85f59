[package]
name = "rest_task_scheduler"
version = "0.1.0"
edition = "2021"
publish = false

[dependencies]
anyhow = "1"
axum = "=0.6.20"
axum-macros = "=0.3.8"
bb8 = "0.8"
bb8-redis = "=0.13.1"
dotenvy = "0.15"
hyper = "=0.14.32"
once_cell = "1"
serde = { version = "1", features = ["derive"] }
serde_json = "1"
sqlx = { version = "=0.6.3", default-features = false, features = ["runtime-tokio-rustls", "postgres", "time", "uuid"] }
time = "=0.3.55"
tokio = { version = "1", features = ["full"] }
ulid = { version = "=1.2.1", features = ["uuid"] }
uuid = { version = "=1.27.0", features = ["serde"] }
