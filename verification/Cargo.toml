[package]
name = "ada"
version = "0.1.0"
edition = "2021"
publish = false

[dependencies]
anyhow = "=1.0.104"
crossterm = "=0.29.0"
globset = "=0.4.20"
ignore = "=0.4.33"
ratatui = "=0.30.2"
regex = "=1.13.1"
reqwest = { version = "=0.12.28", default-features = false, features = ["rustls-tls", "json"] }
rig-core = { version = "=0.44.0", features = ["reqwest"] }
serde = { version = "=1.0.229", features = ["derive"] }
serde_json = "=1.0.151"
similar = "=3.2.0"
thiserror = "=2.0.21"
tokio = { version = "=1.53.2", features = ["fs", "process", "rt-multi-thread", "macros", "time", "io-util"] }
toml = "=1.1.7"
