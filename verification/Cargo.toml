[package]
name = "serde_bolt"
version = "0.1.0"
edition = "2021"
publish = false

[dependencies]
serde = "1"
serde_bytes = "0.11"
serde_derive = "1"
