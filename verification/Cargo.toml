[package]
name = "niri_bar"
version = "0.1.0"
edition = "2021"
publish = false

[dependencies]
anyhow = "=1.0.104"
chrono = "=0.4.45"
gtk4 = "=0.11.5"
gtk4-layer-shell = "=0.8.1"
once_cell = "=1.21.4"
serde = { version = "=1.0.229", features = ["derive"] }
serde_json = "=1.0.154"
tokio = { version = "=1.54.1", features = ["full"] }
uuid = { version = "=1.29.0", features = ["v4"] }
zbus = { version = "=5.19.0", default-features = false, features = ["tokio"] }
