[package]
name = "grapplefrcdriver"
version = "0.1.0"
edition = "2021"
publish = false

[dependencies]
grapple-frc-msgs = "=2025.0.11"
anyhow = "=1.0.104"
futures = "=0.3.34"
tokio = { version = "=1.53.2", features = ["rt", "time", "macros"] }
warp = { version = "=0.4.3", features = ["server", "websocket"] }
