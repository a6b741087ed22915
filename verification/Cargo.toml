[package]
name = "astrbot"
version = "0.1.0"
edition = "2021"
publish = false

[dependencies]
aes = "0.8"
cipher = "0.4"
generic-array = "0.14"
base64 = "0.22"
hex = "0.4"
md5 = "0.7"
uuid = { version = "1", features = ["v4"] }
getrandom = "0.2"
chrono = "0.4"
jsonwebtoken = "9"
serde = { version = "1", features = ["derive"] }
serde_json = "1"
toml = "0.8"
tokio = { version = "1", features = ["full"] }
axum = "0.8"
reqwest = { version = "0.12", default-features = false, features = ["json"] }
sqlx = { version = "0.8", default-features = false, features = ["runtime-tokio", "sqlite", "chrono", "derive", "macros"] }
tower-http = { version = "0.6", features = ["cors", "fs"] }
tracing = "0.1"
tracing-subscriber = { version = "0.3", features = ["env-filter", "json"] }
async-trait = "0.1"
async-stream = "0.3"
futures-util = { version = "0.3", features = ["sink"] }
tokio-stream = "0.1"
tokio-tungstenite = "0.24"
thiserror = "2"
