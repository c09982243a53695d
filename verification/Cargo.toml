[package]
name = "qa_service"
version = "0.1.0"
edition = "2021"
publish = false

[dependencies]
axum = "*"
tokio = { version = "*", features = ["rt-multi-thread", "macros", "net"] }
sqlx = { version = "*", default-features = false, features = ["runtime-tokio", "postgres"] }
serde = { version = "*", features = ["derive"] }
dotenvy = "*"
log = "*"
pretty_env_logger = "*"
