[package]
name = "story_thread"
version = "0.1.0"
edition = "2021"
publish = false

[dependencies]
chrono = { version = "0.4", features = ["serde"] }
dioxus = { version = "0.5", features = ["router"] }
dioxus-logger = "0.5"
serde = { version = "1", features = ["derive"] }
tracing = "0.1"
