[package]
name = "flat-playground-runner"
version = "0.1.0"
edition = "2021"
publish = false

[dependencies]
futures = "=0.3.34"
lru_time_cache = "=0.10.0"
serde = { version = "=1.0.229", features = ["derive"] }
serde_json = "=1.0.154"
sha2 = "=0.8.2"
structopt = "=0.3.26"
tokio = { version = "=0.2.25", features = ["full"] }
tokio-tungstenite = { version = "=0.10.1", features = ["tls"] }
toml = "=0.5.11"
url = "=2.5.8"
uuid = "=0.8.2"
