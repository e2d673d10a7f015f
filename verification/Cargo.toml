[package]
name = "blog"
version = "0.1.0"
edition = "2021"
publish = false

[dependencies]
anyhow = "1"
askama = { version = "=0.12.1", features = ["with-axum"] }
askama_axum = "0.4"
async-recursion = "1"
async-trait = "0.1"
axum = "=0.7.9"
chrono = { version = "=0.4.45", features = ["serde"] }
gray_matter = "=0.2.9"
notify = "6"
pulldown-cmark = { version = "=0.12.2", default-features = false, features = ["html"] }
serde = { version = "1", features = ["derive"] }
slug = "=0.1.6"
sqlx = { version = "=0.7.4", default-features = false, features = ["runtime-tokio", "sqlite"] }
tokio = { version = "1", features = ["full"] }
tower-http = { version = "=0.5.2", features = ["fs", "trace", "compression-gzip", "set-header"] }
tower-livereload = "0.9"
tower_governor = "=0.4.3"
tracing = "0.1"
tracing-subscriber = "0.3"
uuid = { version = "1", features = ["v4"] }
