[package]
name = "notebooklm-core"
version = "0.1.0"
edition = "2021"
publish = false

[dependencies]
anyhow = "1"
chromiumoxide = { version = "0.7", default-features = false, features = ["tokio-runtime"] }
chrono = "0.4"
dashmap = "6"
directories = "5"
dotenvy = "0.15"
futures = "0.3"
hex = "0.4"
rand = "0.8"
rand_distr = "0.4"
serde = { version = "1", features = ["derive"] }
serde_json = "1"
slug = "0.1"
thiserror = "1"
tokio = { version = "1", features = ["full"] }
tracing = "0.1"
tracing-subscriber = { version = "0.3", features = ["env-filter"] }
walkdir = "2"
