[package]
name = "redisgate"
version = "0.1.0"
edition = "2021"
publish = false

[dependencies]
jsonwebtoken = "9"
serde = { version = "1", features = ["derive"] }
serde_json = { version = "1", features = ["raw_value"] }
uuid = { version = "1", features = ["v4", "serde"] }
chrono = { version = "0.4", features = ["serde"] }
bcrypt = "0.15"
rand = "0.8"
regex = "1"
validator = "0.16"
axum = "0.7"
tokio = { version = "1", features = ["full"] }
deadpool-redis = "0.14"
kube = { version = "0.87", default-features = false, features = ["client", "rustls-tls"] }
k8s-openapi = { version = "0.20", features = ["v1_28"] }
sqlx = { version = "0.7", default-features = false, features = ["postgres", "runtime-tokio", "uuid", "chrono"] }
tracing = "0.1"
tracing-subscriber = { version = "0.3", features = ["env-filter"] }
tower-http = { version = "0.5", features = ["cors"] }
anyhow = "1"
thiserror = "1"
