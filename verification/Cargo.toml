[package]
name = "website_monitor"
version = "0.1.0"
edition = "2021"
publish = false

[dependencies]
lettre = { version = "=0.11.23", default-features = false, features = ["builder", "hostname", "pool", "smtp-transport", "async-std1", "async-std1-rustls-tls"] }
reqwest = { version = "=0.12.28" }
serde = { version = "=1.0.229", features = ["derive"] }
tokio = { version = "=1.54.1", features = ["rt", "sync", "time"] }
