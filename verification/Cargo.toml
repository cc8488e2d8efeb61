[package]
name = "dota-clock"
version = "0.1.0"
edition = "2021"
publish = false

[dependencies]
axum = "=0.8.9"
dirs = "=7.0.0"
gtk4 = { version = "=0.11.5", features = ["v4_12"] }
gtk4-layer-shell = "=0.8.1"
image = { version = "=0.25.10", default-features = false, features = ["png"] }
serde = { version = "=1.0.229", features = ["derive"] }
serde_json = "=1.0.154"
tokio = { version = "=1.54.1", features = ["rt-multi-thread", "net"] }
toml = "=1.1.8"
windows = { version = "0.61", features = ["Win32_Foundation", "Win32_Graphics_Gdi", "Win32_UI_Shell", "Win32_UI_WindowsAndMessaging"] }
