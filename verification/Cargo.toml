[package]
name = "cbor_conformance"
version = "0.1.0"
edition = "2021"
publish = false

[dependencies]
ciborium = "*"
dasl = "*"
hex = "*"
serde = { version = "*", features = ["derive"] }
serde_json = "*"
