[package]
name = "bevy_webserver"
version = "0.1.0"
edition = "2021"
publish = false

[dependencies]
anyhow = "=1.0.104"
async-io = "=2.6.0"
axum = { version = "=0.8.9", default-features = false }
bevy = { version = "0.18", default-features = false, features = ["bevy_log"] }
bevy_defer = { version = "=0.17.0", default-features = false }
hyper = { version = "=1.12.0", features = ["http1", "server"] }
never-type = "=0.1.1"
pin-project-lite = "=0.2.17"
smol-hyper = "=0.1.1"
tower = { version = "=0.5.3", default-features = false }
tower-service = "=0.3.3"
