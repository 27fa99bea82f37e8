[package]
name = "inferno_aoip"
version = "0.1.0"
edition = "2021"
publish = false

[dependencies]
bytebuffer = "2.3"
hex = "0.4"
log = "0.4"
serde = { version = "1", features = ["derive"] }
toml = "0.8"
platform-dirs = "0.3"
tokio = { version = "1", features = ["rt", "sync", "time", "macros", "net"] }
futures = "0.3"
binary_serde = "1.0"
clock-steering = "*"
