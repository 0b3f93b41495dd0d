[package]
name = "lifx_control"
version = "0.1.0"
edition = "2021"
publish = false

[dependencies]
tokio = { version = "*", features = ["rt", "time", "net"] }
futures = "*"
lifx-core = "*"
