[package]
name = "sitecache"
version = "0.1.0"
edition = "2021"
publish = false

[dependencies]
anyhow = "1"
axum = "0.6"
camino = "1"
clap = { version = "4", features = ["derive"] }
dashmap = "5"
handlebars = "*"
parking_lot = "0.12"
pulldown-cmark = "0.9"
rsass = "*"
serde = { version = "1", features = ["derive"] }
tokio = { version = "1", features = ["full"] }
toml = "0.8"
tower = "0.4"
tower-http = { version = "0.4", features = ["fs"] }
tracing = "0.1"
tracing-subscriber = "0.3"
twox-hash = "1"
