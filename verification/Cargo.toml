[package]
name = "mr_damian"
version = "0.1.0"
edition = "2021"
publish = false

[dependencies]
ulid = "=3.0.0"
url = "=2.5.8"
serde = { version = "=1.0.229", features = ["derive"] }
futures = "=0.3.34"
tokio = { version = "=1.53.2", features = ["rt-multi-thread", "macros", "sync", "time", "net"] }
tokio-tungstenite = { version = "=0.30.0", features = ["rustls-tls-webpki-roots"] }
reqwest = { version = "=0.13.5", default-features = false, features = ["rustls", "json"] }
twitch_api = { version = "=0.8.0", features = ["helix", "eventsub", "client", "reqwest", "twitch_oauth2"] }
