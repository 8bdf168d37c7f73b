[package]
name = "project_tracker"
version = "0.1.0"
edition = "2021"
publish = false

[dependencies]
time = { version = "*", features = ["serde-well-known", "formatting", "parsing"] }
serde = { version = "*", features = ["derive"] }
serde_json = "*"
axum = "*"
tokio = { version = "*", features = ["rt-multi-thread", "macros", "net"] }
tower-http = { version = "*", features = ["cors"] }
reqwest = { version = "*", default-features = false, features = ["json"] }
sqlx = { version = "*", default-features = false, features = ["runtime-tokio", "sqlite"] }
tracing = "*"
tracing-subscriber = { version = "*", features = ["env-filter", "fmt", "ansi"] }
tracing-appender = "*"
