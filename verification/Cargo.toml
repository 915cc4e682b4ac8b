[package]
name = "io_engine"
version = "0.1.0"
edition = "2021"
publish = false

[dependencies]
async-trait = "0.1"
chrono = { version = "0.4", default-features = false, features = ["clock", "std"] }
rmp-serde = "1.1"
tracing = "0.1"
