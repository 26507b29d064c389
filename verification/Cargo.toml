[package]
name = "nexus-de"
version = "0.1.0"
edition = "2021"
publish = false

[dependencies]
serde = { version = "1", features = ["derive"] }
serde_json = "1"
toml = "0.8"
thiserror = "1"
image = { version = "0.25", default-features = false, features = ["png", "jpeg", "gif", "webp", "bmp"] }
tokio = { version = "1", features = ["full"] }
tracing = "0.1"
tracing-subscriber = "0.3"
zbus = { version = "4", default-features = false, features = ["tokio"] }
sysinfo = { version = "0.32", default-features = false, features = ["system"] }
notify = "6"
gtk4 = "0.9"
libadwaita = "0.7"
