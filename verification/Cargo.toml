[package]
name = "primality_jones"
version = "0.1.0"
edition = "2021"
publish = false

[dependencies]
num-bigint = { version = "0.4", features = ["rand"] }
rand = "0.8"
chrono = "0.4"

[dev-dependencies]
num-traits = "0.2"
