[package]
name = "kindred"
version = "0.1.0"
edition = "2021"
publish = false

[dependencies]
mtp-rs = "*"
rusb = { version = "*", features = ["vendored"] }
serde = { version = "1", features = ["derive"] }
serde_json = "1"
bytes = "1"
futures = "0.3"
futures-util = "0.3"
directories = "*"
