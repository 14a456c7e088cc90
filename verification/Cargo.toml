[package]
name = "rustpress"
version = "0.1.0"
edition = "2021"
publish = false

[dependencies]
axum = "0.7"
chrono = "0.4"
clap = { version = "4", features = ["derive"] }
notify = "6"
pulldown-cmark = "0.12"
rust-embed = "8"
serde = { version = "1", features = ["derive"] }
serde_json = "1"
serde_yaml = "0.9"
tera = "1"
tokio = { version = "1", features = ["rt", "net", "time"] }
toml = "0.8"
tower-http = { version = "0.5", features = ["fs"] }
walkdir = "2"
