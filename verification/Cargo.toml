[package]
name = "logforth"
version = "0.1.0"
edition = "2021"
publish = false

[dependencies]
jiff = "=0.2.39"
serde = { version = "=1.0.229", features = ["derive"] }
serde_json = "=1.0.154"
colored = "=3.1.1"
oneshot = { version = "=0.2.1", features = ["std"] }
arc-swap = "=1.9.3"
log = { version = "=0.4.35", features = ["kv", "std"] }
pin-project = "=1.1.13"
tokio = { version = "=1.54.1", features = ["rt", "macros"] }
fastrace = "=0.7.19"

[dev-dependencies]
fastrace = { version = "=0.7.19", features = ["enable"] }
