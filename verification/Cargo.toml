[package]
name = "relayer"
version = "0.1.0"
edition = "2021"
publish = false

[dependencies]
async-std = "1"
async-trait = "0.1"
futures = "0.3"
log = "0.4"
quinn = "0.11"
rustls = { version = "0.23", default-features = false, features = ["std"] }
serde = "1"
