[package]
name = "groupware"
version = "0.1.0"
edition = "2021"
publish = false

[dependencies]
ahash = "=0.8.12"
calcard = "=0.1.3"
hyper = "=1.12.0"
mail-auth = "=0.7.5"
reqwest = { version = "=0.13.5", default-features = false }
serde = { version = "=1.0.229", features = ["derive"] }
serde_json = "=1.0.154"
tokio = { version = "=1.54.1", features = ["rt", "sync", "time"] }
tracing = "=0.1.44"
