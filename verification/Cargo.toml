[package]
name = "request_gate"
version = "0.1.0"
edition = "2021"
publish = false

[dependencies]
jsonwebtoken = "=9.3.1"
serde = { version = "1", features = ["derive"] }
serde_json = "=1.0.151"
argon2 = "=0.5.3"
password-hash = "=0.5.0"
rand_core = { version = "=0.6.4", features = ["getrandom"] }
chrono = { version = "0.4", features = ["serde"] }
dashmap = "6"
futures-util = "0.3"
anyhow = "1"
thiserror = "2"
dotenvy = "0.15"
lazy_static = "1"
tokio = { version = "1", features = ["full"] }
warp = "0.3"
sqlx = { version = "0.8", features = ["runtime-tokio", "postgres", "chrono"] }
tracing-subscriber = "0.3"
