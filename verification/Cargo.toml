[package]
name = "esp32_uc"
version = "0.1.0"
edition = "2021"
publish = false

[dependencies]
anyhow = "1"
log = "0.4"
serde = { version = "1", features = ["derive"] }
postcard = { version = "1", features = ["use-std"] }
serialport5 = "*"
core-foundation = "*"
core-graphics = "*"
libloading = "*"
