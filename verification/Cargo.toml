[package]
name = "mail_list_rss"
version = "0.1.0"
edition = "2021"
publish = false

[dependencies]
anyhow = "=1.0.104"
axum = "0.4"
axum-extra = "0.1"
chrono = "=0.4.45"
futures = "=0.3.34"
mail-parser = "=0.4.8"
mongodb = "2"
nanoid = "=0.4.0"
once_cell = "=1.21.4"
rss = "2"
serde = { version = "=1.0.229", features = ["derive"] }
serde_json = "=1.0.154"
tokio = { version = "1", features = ["rt-multi-thread", "net"] }
tower-http = { version = "0.2", features = ["auth", "cors", "set-header", "trace"] }
tracing = "=0.1.44"
