[package]
name = "lumbermill"
version = "0.1.0"
edition = "2021"
publish = false

[dependencies]
anyhow = "1"
hostname = "0.4"
owo-colors = "=4.4.0"
parking_lot = "0.12"
thiserror = "2"
time = "=0.3.55"

[dev-dependencies]
serde_json = "1"
