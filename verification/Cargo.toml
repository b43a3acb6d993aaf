[package]
name = "hidpp"
version = "0.1.0"
edition = "2021"
publish = false

[dependencies]
hidapi = "=2.6.7"
tracing = "=0.1.44"
tracing-subscriber = { version = "=0.3.23", features = ["env-filter"] }

[dev-dependencies]
retry = "=2.2.0"
