[package]
name = "memsther"
version = "0.1.0"
edition = "2021"
publish = false

[dependencies]
deadpool-postgres = "0.10"
env_logger = "0.10"
log = "0.4"
rand = "0.8"
refinery = { version = "0.8", features = ["tokio-postgres"] }
regex = "1"
reqwest = { version = "0.11", default-features = false, features = ["json", "rustls-tls"] }
serde = { version = "1", features = ["derive"] }
serenity = { version = "0.11", default-features = false, features = ["builder", "client", "gateway", "http", "model", "rustls_backend"] }
tokio = { version = "1", features = ["macros", "rt-multi-thread", "time"] }
tokio-postgres = "0.7"
toml = "0.5"
url = "2"
