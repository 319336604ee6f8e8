[package]
name = "featureflags"
version = "0.1.0"
edition = "2021"
publish = false

[dependencies]
sha1 = "0.10"
hex = "0.4"
http = "*"
serde = { version = "1", features = ["derive"] }
serde_json = "1"
eventsource-client = "*"
futures = "0.3"
tokio = { version = "1", features = ["rt", "sync", "macros", "time"] }
