[package]
name = "evk_datalogger"
version = "0.1.0"
edition = "2021"
publish = false

[dependencies]
array2d = "=0.3.2"
chrono = "=0.4.45"
clap = { version = "=4.6.7", features = ["derive"] }
image = "=0.25.10"
neuromorphic-drivers = "=0.15.0"
serde = { version = "=1.0.229", features = ["derive"] }
serde_json = "=1.0.154"
uds_windows = "=1.2.1"
