[package]
name = "asupersync"
version = "0.1.0"
edition = "2021"
publish = false

[dependencies]
serde = { version = "=1.0.229", features = ["derive"] }
serde_json = "=1.0.154"
thiserror = "=2.0.21"
sha2 = "=0.10.9"
parking_lot = "=0.12.5"
hyper = "1"
