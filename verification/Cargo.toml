[package]
name = "my_cache"
version = "0.1.0"
edition = "2021"
publish = false

[dependencies]
mpchash = "*"
dashmap = "*"
serde_json = "*"
serde = { version = "*", features = ["derive"] }
tokio = { version = "*", features = ["full"] }
axum = "*"
tower-http = { version = "*", features = ["cors"] }
log = "*"
log4rs = "*"
dotenv = "*"
