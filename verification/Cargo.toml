[package]
name = "prism"
version = "0.2.0"
edition = "2021"
publish = false

[dependencies]
language-tags = "0.3"
serde = { version = "1", features = ["derive"] }
serde_json = "1"
reqwest = { version = "0.12", default-features = false, features = ["rustls-tls"] }
schemars = "0.8"
thiserror = "2"
tokio = { version = "1", features = ["macros", "rt-multi-thread", "io-util", "io-std"] }
tracing = "0.1"
tracing-subscriber = { version = "0.3", features = ["env-filter", "json"] }
async-trait = "0.1"
