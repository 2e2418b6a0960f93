[package]
name = "citeright"
version = "0.1.0"
edition = "2021"
publish = false

[dependencies]
sha2 = "=0.10.9"
hex = "=0.4.3"
regex = "=1.13.1"
serde = { version = "=1.0.229", features = ["derive"] }
serde_json = { version = "=1.0.154", features = ["preserve_order"] }
anyhow = "=1.0.104"
clap = { version = "=4.6.7", features = ["derive", "env"] }
chrono = { version = "=0.4.45", features = ["serde"] }
reqwest = { version = "=0.12.28", default-features = false, features = ["blocking", "json", "rustls-tls"] }
zip = { version = "=2.6.1", default-features = false, features = ["deflate"] }
quick-xml = "=0.31.0"
lopdf = { version = "=0.32.0", default-features = false, features = ["nom_parser"] }
uuid = { version = "=1.29.0", features = ["v4"] }
axum = { version = "=0.7.9", features = ["multipart"] }
tokio = { version = "=1.54.1", features = ["rt-multi-thread", "macros", "net"] }
tower-http = { version = "=0.5.2", features = ["cors"] }
tracing = "=0.1.44"
tracing-subscriber = { version = "=0.3.23", features = ["env-filter"] }
