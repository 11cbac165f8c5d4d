[package]
name = "gitlabjob"
version = "0.1.0"
edition = "2021"
publish = false

[dependencies]
lettre = { version = "0.11", default-features = false, features = ["smtp-transport", "builder", "rustls-tls"] }
reqwest = { version = "0.12", default-features = false, features = ["json"] }
tokio = { version = "1", features = ["rt", "macros", "time"] }
futures = "0.3"
serde = { version = "1", features = ["derive"] }
serde_json = "1"
envy = "0.4"
toml = "0.8"
log = "0.4"
env_logger = "0.11"
