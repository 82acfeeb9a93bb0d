[package]
name = "openads"
version = "0.1.0"
edition = "2021"
publish = false

[dependencies]
chrono = "=0.4.45"
crossbeam = "=0.8.5"
log = "=0.4.35"
log4rs = "=1.4.0"
opencv = "=0.101.1"
quick-xml = { version = "=0.42.0", features = ["serialize"] }
rusb = "=0.9.4"
serde = { version = "=1.0.229", features = ["derive"] }
tch = "=0.26.0"
tokio = { version = "=1.54.1", features = ["rt-multi-thread"] }
toml = "0.8"
uuid = { version = "=1.29.1", features = ["v4"] }
v4l = "=0.14.0"
