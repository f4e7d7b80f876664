[package]
name = "evault_auth"
version = "0.1.0"
edition = "2021"
publish = false

[dependencies]
anyhow = "*"
axum = "*"
axum-extra = { version = "*", features = ["cookie"] }
base64 = "*"
dotenv = "*"
r2d2 = "*"
rand = "*"
redis = { version = "*", features = ["r2d2"] }
reqwest = { version = "*", default-features = false, features = ["json", "cookies"] }
secrecy = { version = "*", features = ["serde"] }
serde = { version = "*", features = ["derive"] }
serde_json = "*"
sqlx = { version = "*", default-features = false, features = ["runtime-tokio", "postgres", "migrate"] }
tokio = { version = "*", features = ["macros", "rt-multi-thread", "net"] }
tower-http = { version = "*", features = ["cors", "trace"] }
tracing = "*"
tracing-subscriber = { version = "*", features = ["env-filter"] }
url = "*"
