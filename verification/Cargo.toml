[package]
name = "esp_xray"
version = "0.1.0"
edition = "2021"
publish = false

[dependencies]
clap = { version = "*", features = ["derive"] }
log = "*"
probe-rs = "*"
embassy-sync = "*"
futures-lite = "*"
embedded-io-async = "*"
rtos-trace = "*"
