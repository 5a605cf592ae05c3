[package]
name = "bpm_sei"
version = "0.1.0"
edition = "2021"
publish = false

[dependencies]
chrono = { version = "0.4", default-features = false, features = ["std", "clock"] }
lazy_static = "1"
parking_lot = "0.12"
