[package]
name = "twitch_notifier"
version = "0.1.0"
edition = "2021"
publish = false

[dependencies]
axum = "=0.7.9"
eyre = "=0.6.14"
futures = "=0.3.34"
hex = "=0.4.3"
hmac = "=0.12.1"
http = "=1.5.0"
http-body-util = "=0.1.5"
mongodb = "=3.9.1"
once_cell = "=1.21.4"
reqwest = { version = "=0.12.28", default-features = false, features = ["rustls-tls"] }
serde = { version = "=1.0.229", features = ["derive"] }
serde_json = "=1.0.154"
sha2 = "=0.10.9"
# Held back for teloxide: the next release of takecell asks for a newer compiler.
takecell = "=0.1.1"
teloxide = { version = "=0.13.0", default-features = false, features = ["macros", "webhooks-axum", "throttle", "cache-me", "rustls"] }
tokio = { version = "=1.54.1", features = ["full"] }
tower = "=0.5.3"
tower-http = { version = "=0.6.11", features = ["trace", "fs"] }
tracing = "=0.1.44"
tracing-subscriber = "=0.3.23"
twitch_api = { version = "=0.7.2", features = ["helix", "client", "reqwest", "eventsub", "hmac"] }
twitch_oauth2 = { version = "=0.15.2", features = ["client", "reqwest"] }
url = "=2.5.8"
