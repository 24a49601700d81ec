[package]
name = "graphsynth"
version = "0.1.0"
edition = "2021"
publish = false

[dependencies]
anyhow = "*"
async-graphql = { version = "*", features = ["dynamic-schema"] }
async-graphql-axum = "*"
axum = "*"
chrono = "*"
dotenvy = "*"
tokio = { version = "*", features = ["rt-multi-thread", "macros", "net"] }
tokio-postgres = "*"
tracing = "*"
tracing-subscriber = "*"
