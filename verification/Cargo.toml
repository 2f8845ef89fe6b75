[package]
name = "quest_tasks"
version = "0.1.0"
edition = "2021"
publish = false

[dependencies]
axum = "0.6"
futures = "0.3"
mongodb = "2"
serde = { version = "1", features = ["derive"] }
serde_json = "1"
tokio = { version = "1", features = ["macros", "rt-multi-thread"] }
tower-http = { version = "0.4", features = ["cors"] }
