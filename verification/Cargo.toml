[package]
name = "davit"
version = "0.1.0"
edition = "2021"
publish = false

[dependencies]
anyhow = "=1.0.104"
chrono = "=0.4.45"
clap = { version = "=4.6.7", features = ["derive"] }
console = "=0.16.6"
crossterm = "=0.29.0"
directories = "=6.0.0"
futures = "=0.3.34"
inquire = "=0.9.4"
k8s-openapi = { version = "=0.27.1", features = ["latest"] }
kube = "=3.1.0"
ratatui = "=0.30.2"
serde = { version = "=1.0.229", features = ["derive"] }
serde_json = "=1.0.151"
serde_yaml = "=0.9.34"
similar = "=3.2.0"
tokio = { version = "=1.53.2", features = ["full"] }
toml = "=1.1.6"
walkdir = "=2.5.0"
