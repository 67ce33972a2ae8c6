[package]
name = "bank_statement"
version = "0.1.0"
edition = "2021"
publish = false

[dependencies]
chrono = { version = "=0.4.45", default-features = false, features = ["std", "serde"] }
csv = "=1.4.0"
regex = "=1.13.1"
serde = "=1.0.229"
serde_derive = "=1.0.229"
