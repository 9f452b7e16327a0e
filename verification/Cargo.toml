[package]
name = "yeelight-core"
version = "0.1.0"
edition = "2021"
publish = false

[dependencies]
serde = { version = "=1.0.229", features = ["derive"] }
serde_json = "=1.0.154"
toml = "=0.8.23"
tokio = { version = "=1.54.1", features = ["full"] }
socket2 = { version = "=0.5.10", features = ["all"] }
thiserror = "=2.0.21"
rustfft = "6"
